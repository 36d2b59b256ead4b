//! The client's side of the encrypted session: requesting user
//! authentication, answering the server's verdicts, and channel traffic.
use crate::auth::{
    name_password, name_publickey, parse_method_list, AuthRequest, CurrentRequest, MethodSet,
};
use crate::codec::{crypto_vec_new, framed, parse_string, parse_u32, parse_u8, push_packet, push_string, read_string,
    read_u32, read_u8, ssh_string};
use crate::msg;
use crate::names;
use crate::server::{bytes_eq, ssh_connection, ssh_userauth};
use crate::server_channel::parse_data;
use crate::server_session::{Kex, NewKeys};
use crate::session::{channel_removed, data_received, find_index, has_channel, state_rank, Channel, ChannelId, Encrypted,
    EncryptedState, Error, Exchange};
use vstd::prelude::*;
use vstd::utf8::{encode_utf8, valid_utf8};

verus! {

/// Relies on std's `str::from_utf8`: it succeeds exactly on well-formed
/// UTF-8.
#[verifier::external_body]
fn is_utf8(b: &[u8]) -> (r: bool)
    ensures
        r == valid_utf8(b@),
{
    std::str::from_utf8(b).is_ok()
}

/// A public key as the wire carries it: its algorithm name and its blob.
#[derive(Debug, Clone)]
pub struct PublicKeyBlob {
    pub algo: Vec<u8>,
    pub blob: Vec<u8>,
}

/// An authentication method that the client tries.
#[derive(Debug, Clone)]
pub enum Method {
    Password { password: String },
    /// A key whose secret half this process holds.
    PublicKey { key: PublicKeyBlob },
    /// A key that the application signs with (an agent, for instance).
    FuturePublicKey { key: PublicKeyBlob },
}

/// The payload of USERAUTH_REQUEST for `method`: a password with the
/// change-password flag unset, or a key offered without signature.
pub open spec fn auth_request_payload(user: Seq<u8>, method: Method) -> Seq<u8> {
    seq![msg::USERAUTH_REQUEST] + ssh_string(user) + ssh_string(ssh_connection()) + match method {
        Method::Password { password } => ssh_string(name_password()) + seq![0u8] + ssh_string(
            encode_utf8(password@),
        ),
        Method::PublicKey { key } => ssh_string(name_publickey()) + seq![0u8] + ssh_string(key.algo@)
            + ssh_string(key.blob@),
        Method::FuturePublicKey { key } => ssh_string(name_publickey()) + seq![0u8] + ssh_string(
            key.algo@,
        ) + ssh_string(key.blob@),
    }
}

/// The signed request for a key, after the session id: what the signature
/// covers, and the start of the packet to send.
pub open spec fn signed_request_body(user: Seq<u8>, key: PublicKeyBlob) -> Seq<u8> {
    seq![msg::USERAUTH_REQUEST] + ssh_string(user) + ssh_string(ssh_connection()) + ssh_string(
        name_publickey(),
    ) + seq![1u8] + ssh_string(key.algo@) + ssh_string(key.blob@)
}

/// What the driver does once the client has read a packet.
pub enum ClientAction {
    /// Nothing more: flush what was written.
    Done,
    /// Hand the packet to the key exchange in progress.
    Kex,
    /// The server asks for a key re-exchange: run it from this exchange.
    Rekey { exchange: Exchange },
    /// Tell the application that authentication succeeded.
    AuthSuccess,
    /// Show the banner, which is UTF-8, to the handler.
    AuthBanner { text: Vec<u8> },
    /// Tell the application that authentication failed; where `fatal`, no
    /// method is left and the session then ends with `NoAuthMethod`.
    AuthFailure { fatal: bool },
    /// Sign `data` with the key pair held, append the signature, and hand
    /// the result to `client_push_signed` with `start`.
    Sign { data: Vec<u8>, start: usize },
    /// Send `data` to the application to be signed with `key`, and hand its
    /// answer to `client_signed_reply` with `start` and the bytes sent.
    SignRequest { key: PublicKeyBlob, data: Vec<u8>, start: usize },
    ChannelOpenConfirmation { channel: ChannelId },
    ChannelOpenFailure { channel: ChannelId, reason: u32, description: Vec<u8>, language: Vec<u8> },
    ChannelClose { channel: ChannelId },
    ChannelEof { channel: ChannelId },
    Data { channel: ChannelId, data: Vec<u8> },
    ExtendedData { channel: ChannelId, code: u32, data: Vec<u8> },
    WindowAdjusted { channel: ChannelId, new_window_size: u32 },
    ForwardedTcpip {
        channel: ChannelId,
        connected_address: Vec<u8>,
        connected_port: u32,
        originator_address: Vec<u8>,
        originator_port: u32,
    },
    XonXoff { channel: ChannelId, client_can_do: bool },
    ExitStatus { channel: ChannelId, exit_status: u32 },
    ExitSignal {
        channel: ChannelId,
        signal_name: Vec<u8>,
        core_dumped: bool,
        error_message: Vec<u8>,
        lang_tag: Vec<u8>,
    },
}

impl Encrypted {
    /// Writes USERAUTH_REQUEST for `auth_method`: a password, or a key
    /// offered without signature.
    pub fn write_auth_request(&mut self, user: &[u8], auth_method: &Method) -> (r: bool)
        ensures
            r,
            *final(self) == (Encrypted { write: final(self).write, ..*old(self) }),
            final(self).written() == old(self).written() + framed(
                auth_request_payload(user@, *auth_method),
            ),
    {
        let mut p: Vec<u8> = vec![msg::USERAUTH_REQUEST];
        push_string(&mut p, user);
        push_string(&mut p, crate::server::ssh_connection_bytes().as_slice());
        match auth_method {
            Method::Password { password } => {
                push_string(&mut p, crate::auth::name_password_bytes().as_slice());
                p.push(0u8);
                push_string(&mut p, password.as_str().as_bytes());
            },
            Method::PublicKey { key } => {
                push_string(&mut p, crate::auth::name_publickey_bytes().as_slice());
                p.push(0u8);
                push_string(&mut p, key.algo.as_slice());
                push_string(&mut p, key.blob.as_slice());
            },
            Method::FuturePublicKey { key } => {
                push_string(&mut p, crate::auth::name_publickey_bytes().as_slice());
                p.push(0u8);
                push_string(&mut p, key.algo.as_slice());
                push_string(&mut p, key.blob.as_slice());
            },
        }
        assert(p@ =~= auth_request_payload(user@, *auth_method));
        push_packet(&mut self.write, p.as_slice());
        true
    }

    /// The bytes to sign for `key`: the session id as a string, then the
    /// signed request. Returns them with the position where the request
    /// starts.
    pub fn client_make_to_sign(&self, user: &[u8], key: &PublicKeyBlob) -> (r: (Vec<u8>, usize))
        ensures
            r.0@ == ssh_string(self.session_id@) + signed_request_body(user@, *key),
            r.1 == ssh_string(self.session_id@).len(),
    {
        let mut b: Vec<u8> = Vec::new();
        push_string(&mut b, self.session_id.as_slice());
        let i0 = b.len();
        b.push(msg::USERAUTH_REQUEST);
        push_string(&mut b, user);
        push_string(&mut b, crate::server::ssh_connection_bytes().as_slice());
        push_string(&mut b, crate::auth::name_publickey_bytes().as_slice());
        b.push(1u8);
        push_string(&mut b, key.algo.as_slice());
        push_string(&mut b, key.blob.as_slice());
        assert(b@ =~= ssh_string(self.session_id@) + signed_request_body(user@, *key));
        (b, i0)
    }

    /// Sends the signed request: the bytes of `buffer` from `start` on.
    pub fn client_push_signed(&mut self, buffer: &[u8], start: usize)
        requires
            start <= buffer@.len(),
        ensures
            *final(self) == (Encrypted { write: final(self).write, ..*old(self) }),
            final(self).written() == old(self).written() + framed(
                buffer@.subrange(start as int, buffer@.len() as int),
            ),
    {
        push_packet(&mut self.write, &buffer[start..buffer.len()]);
    }

    /// Reads a packet once authenticated: channel confirmations, failures,
    /// closes, data, requests and window adjustments. Packets of other
    /// kinds are ignored.
    pub fn client_read_authenticated(&mut self, window_size: u32, buf: &[u8]) -> (r: Result<ClientAction, Error>)
        requires
            old(self).wf(),
            buf@.len() >= 1,
        ensures
            final(self).wf(),
            client_authenticated_effect(*old(self), *final(self), window_size, buf@, r),
    {
        let op = buf[0];
        if op == msg::CHANNEL_OPEN_CONFIRMATION {
            let (id, _) = match read_u32(buf, 1) {
                Some(x) => x,
                None => return Err(Error::MalformedPacket),
            };
            let (recv, _) = match read_u32(buf, 5) {
                Some(x) => x,
                None => return Err(Error::MalformedPacket),
            };
            let (w, _) = match read_u32(buf, 9) {
                Some(x) => x,
                None => return Err(Error::MalformedPacket),
            };
            let (m, _) = match read_u32(buf, 13) {
                Some(x) => x,
                None => return Err(Error::MalformedPacket),
            };
            match self.find_channel(ChannelId(id)) {
                Some(i) => {
                    proof {
                        self.lemma_find_spec(ChannelId(id), i as int);
                    }
                    let mut c = self.channels[i];
                    c.recipient_channel = recv;
                    c.recipient_window_size = w;
                    c.recipient_maximum_packet_size = m;
                    c.confirmed = true;
                    self.set_channel(i, c);
                    Ok(ClientAction::ChannelOpenConfirmation { channel: ChannelId(id) })
                },
                None => {
                    proof {
                        self.lemma_find_spec_none(ChannelId(id));
                    }
                    Err(Error::Inconsistent)
                },
            }
        } else if op == msg::CHANNEL_CLOSE || op == msg::CHANNEL_EOF {
            let (c, _) = match read_u32(buf, 1) {
                Some(x) => x,
                None => return Err(Error::MalformedPacket),
            };
            if op == msg::CHANNEL_CLOSE {
                self.remove_channel(ChannelId(c));
                Ok(ClientAction::ChannelClose { channel: ChannelId(c) })
            } else {
                Ok(ClientAction::ChannelEof { channel: ChannelId(c) })
            }
        } else if op == msg::CHANNEL_OPEN_FAILURE {
            let (c, _) = match read_u32(buf, 1) {
                Some(x) => x,
                None => return Err(Error::MalformedPacket),
            };
            let (reason, _) = match read_u32(buf, 5) {
                Some(x) => x,
                None => return Err(Error::MalformedPacket),
            };
            let (description, q) = match read_string(buf, 9) {
                Some(x) => x,
                None => return Err(Error::MalformedPacket),
            };
            let (language, _) = match read_string(buf, q) {
                Some(x) => x,
                None => return Err(Error::MalformedPacket),
            };
            self.remove_channel(ChannelId(c));
            Ok(ClientAction::ChannelOpenFailure { channel: ChannelId(c), reason, description, language })
        } else if op == msg::CHANNEL_DATA || op == msg::CHANNEL_EXTENDED_DATA {
            let (c, p1) = match read_u32(buf, 1) {
                Some(x) => x,
                None => return Err(Error::MalformedPacket),
            };
            let (code, p2) = if op == msg::CHANNEL_DATA {
                (None, p1)
            } else {
                match read_u32(buf, p1) {
                    Some((x, q)) => (Some(x), q),
                    None => return Err(Error::MalformedPacket),
                }
            };
            let (data, _) = match read_string(buf, p2) {
                Some(x) => x,
                None => return Err(Error::MalformedPacket),
            };
            self.adjust_window_size(ChannelId(c), data.len(), window_size);
            match code {
                None => Ok(ClientAction::Data { channel: ChannelId(c), data }),
                Some(x) => Ok(ClientAction::ExtendedData { channel: ChannelId(c), code: x, data }),
            }
        } else if op == msg::CHANNEL_REQUEST {
            let (c, _) = match read_u32(buf, 1) {
                Some(x) => x,
                None => return Err(Error::MalformedPacket),
            };
            let (name, p) = match read_string(buf, 5) {
                Some(x) => x,
                None => return Err(Error::MalformedPacket),
            };
            client_read_channel_request(ChannelId(c), name.as_slice(), buf, p)
        } else if op == msg::CHANNEL_WINDOW_ADJUST {
            let (c, _) = match read_u32(buf, 1) {
                Some(x) => x,
                None => return Err(Error::MalformedPacket),
            };
            let (amount, _) = match read_u32(buf, 5) {
                Some(x) => x,
                None => return Err(Error::MalformedPacket),
            };
            match self.window_adjusted(ChannelId(c), amount) {
                Ok(w) => Ok(ClientAction::WindowAdjusted { channel: ChannelId(c), new_window_size: w }),
                Err(e) => Err(e),
            }
        } else if op == msg::GLOBAL_REQUEST {
            match read_string(buf, 1) {
                Some(_) => Ok(ClientAction::Done),
                None => Err(Error::MalformedPacket),
            }
        } else {
            Ok(ClientAction::Done)
        }
    }

    /// The application's answer to a signing request: where the buffer
    /// came back different from the one sent, the signed request in it is
    /// sent.
    pub fn client_signed_reply(&mut self, sent: &[u8], start: usize, data: &[u8])
        requires
            start <= data@.len(),
        ensures
            *final(self) == (Encrypted { write: final(self).write, ..*old(self) }),
            final(self).written() == if data@ != sent@ {
                old(self).written() + framed(data@.subrange(start as int, data@.len() as int))
            } else {
                old(self).written()
            },
    {
        if !bytes_eq(data, sent) {
            push_packet(&mut self.write, &data[start..data.len()]);
        }
    }
}

/// A client's connection.
pub struct Session {
    pub encrypted: Option<Encrypted>,
    pub kex: Option<Kex>,
    pub auth_user: Vec<u8>,
    pub auth_method: Option<Method>,
    /// The initial and target window of a channel.
    pub window_size: u32,
}

/// Whether the server waits for an authentication request in state `s`.
pub open spec fn waits_for_auth(s: EncryptedState) -> bool {
    match s {
        EncryptedState::WaitingAuthRequest(_) => true,
        EncryptedState::WaitingServiceRequest { accepted } => accepted,
        EncryptedState::Authenticated => false,
    }
}

/// The authentication request that a client starts with.
pub open spec fn fresh_auth_request() -> AuthRequest {
    AuthRequest { methods: MethodSet::all_spec(), partial_success: false, current: None, rejection_count: 0 }
}

/// What reading a packet in the encrypted state does: see
/// `Session::client_read_encrypted`.
pub open spec fn client_read_effect(s0: Session, s1: Session, b: Seq<u8>, r: Result<ClientAction, Error>) -> bool {
    let e = s0.encrypted.unwrap();
    let f = s1.encrypted.unwrap();
    let op = b[0];
    &&& s1.encrypted is Some
    &&& f.wf()
    &&& f.session_id == e.session_id
    &&& state_rank(f.state) >= state_rank(e.state)
    &&& s1.auth_user == s0.auth_user
    &&& s1.window_size == s0.window_size
    &&& if op == msg::KEXINIT {
        match e.exchange {
            Some(x) => {
                &&& r matches Ok(ClientAction::Rekey { exchange }) && exchange == x
                &&& f == (Encrypted { exchange: None, ..e })
                &&& s1.kex == Some(Kex::KexDhDone)
            },
            None => r matches Ok(ClientAction::Done) && f == e && s1.kex == s0.kex,
        }
    } else {
        &&& s1.kex == s0.kex
        &&& match e.state {
            EncryptedState::WaitingServiceRequest { .. } => if op == msg::SERVICE_ACCEPT {
                match parse_string(b, 1) {
                    Some((name, _)) => {
                        &&& r matches Ok(ClientAction::Done)
                        &&& s1.auth_method == s0.auth_method
                        &&& if name == ssh_userauth() {
                            match s0.auth_method {
                                Some(m) => {
                                    &&& f.state == EncryptedState::WaitingAuthRequest(fresh_auth_request())
                                    &&& f.written() == e.written() + framed(auth_request_payload(s0.auth_user@, m))
                                    &&& f == (Encrypted { state: f.state, write: f.write, ..e })
                                },
                                None => f == (Encrypted {
                                    state: EncryptedState::WaitingServiceRequest { accepted: true },
                                    ..e
                                }),
                            }
                        } else {
                            f == e
                        }
                    },
                    None => r == Err::<ClientAction, Error>(Error::MalformedPacket) && f == e,
                }
            } else {
                r == Err::<ClientAction, Error>(Error::Inconsistent) && f == e
            },
            EncryptedState::WaitingAuthRequest(a) => if op == msg::USERAUTH_SUCCESS {
                &&& r matches Ok(ClientAction::AuthSuccess)
                &&& f == (Encrypted { state: EncryptedState::Authenticated, ..e })
                &&& s1.auth_method == s0.auth_method
            } else if op == msg::USERAUTH_BANNER {
                &&& f == e
                &&& s1.auth_method == s0.auth_method
                &&& match parse_string(b, 1) {
                    Some((t, _)) => if valid_utf8(t) {
                        match r {
                            Ok(ClientAction::AuthBanner { text }) => text@ == t,
                            _ => false,
                        }
                    } else {
                        r matches Ok(ClientAction::Done)
                    },
                    None => r == Err::<ClientAction, Error>(Error::MalformedPacket),
                }
            } else if op == msg::USERAUTH_FAILURE {
                match parse_string(b, 1) {
                    Some((list, _)) => {
                        let m = parse_method_list(list);
                        &&& f == (Encrypted {
                            state: EncryptedState::WaitingAuthRequest(AuthRequest { methods: m, ..a }),
                            ..e
                        })
                        &&& s1.auth_method is None
                        &&& r matches Ok(ClientAction::AuthFailure { fatal }) && fatal == m.is_empty_spec()
                    },
                    None => r == Err::<ClientAction, Error>(Error::MalformedPacket) && f == e && s1.auth_method
                        == s0.auth_method,
                }
            } else if op == msg::USERAUTH_PK_OK {
                &&& f.written() == e.written()
                &&& f.state == match a.current {
                    Some(CurrentRequest::PublicKey { key, algo, .. }) => EncryptedState::WaitingAuthRequest(
                        AuthRequest { current: Some(CurrentRequest::PublicKey { key, algo, sent_pk_ok: true }), ..a },
                    ),
                    _ => e.state,
                }
                &&& f == (Encrypted { state: f.state, ..e })
                &&& match s0.auth_method {
                    Some(Method::PublicKey { key }) => {
                        &&& s1.auth_method is None
                        &&& match r {
                            Ok(ClientAction::Sign { data, start }) => data@ == ssh_string(e.session_id@)
                                + signed_request_body(s0.auth_user@, key) && start == ssh_string(
                                e.session_id@,
                            ).len(),
                            _ => false,
                        }
                    },
                    Some(Method::FuturePublicKey { key }) => {
                        &&& s1.auth_method is None
                        &&& match r {
                            Ok(ClientAction::SignRequest { key: k, data, start }) => k == key && data@
                                == ssh_string(e.session_id@) + signed_request_body(s0.auth_user@, key) && start
                                == ssh_string(e.session_id@).len(),
                            _ => false,
                        }
                    },
                    _ => r matches Ok(ClientAction::Done) && s1.auth_method is None,
                }
            } else {
                r == Err::<ClientAction, Error>(Error::Inconsistent) && f == e && s1.auth_method == s0.auth_method
            },
            EncryptedState::Authenticated => s1.auth_method == s0.auth_method && client_authenticated_effect(
                e,
                f,
                s0.window_size,
                b,
                r,
            ),
        }
    }
}

/// The payload of a channel request as the client reads it.
pub open spec fn client_request_matches(r: Result<ClientAction, Error>, ch: ChannelId, name: Seq<u8>, b: Seq<u8>, p: int) -> bool {
    if name == names::forwarded_tcpip() {
        match parse_string(b, p) {
            Some((a, q1)) => match parse_u32(b, q1) {
                Some((ap, q2)) => match parse_string(b, q2) {
                    Some((o, q3)) => match parse_u32(b, q3) {
                        Some((op, _)) => match r {
                            Ok(ClientAction::ForwardedTcpip { channel, connected_address, connected_port, originator_address, originator_port }) =>
                                channel == ch && connected_address@ == a && connected_port == ap && originator_address@ == o
                                && originator_port == op,
                            _ => false,
                        },
                        None => r == Err::<ClientAction, Error>(Error::MalformedPacket),
                    },
                    None => r == Err::<ClientAction, Error>(Error::MalformedPacket),
                },
                None => r == Err::<ClientAction, Error>(Error::MalformedPacket),
            },
            None => r == Err::<ClientAction, Error>(Error::MalformedPacket),
        }
    } else if name == names::xon_xoff() {
        match (parse_u8(b, p), parse_u8(b, p + 1)) {
            (Some(_), Some((x, _))) => r matches Ok(ClientAction::XonXoff { channel, client_can_do }) && channel == ch
                && client_can_do == (x != 0),
            _ => r == Err::<ClientAction, Error>(Error::MalformedPacket),
        }
    } else if name == names::exit_status() {
        match (parse_u8(b, p), parse_u32(b, p + 1)) {
            (Some(_), Some((x, _))) => r matches Ok(ClientAction::ExitStatus { channel, exit_status }) && channel == ch
                && exit_status == x,
            _ => r == Err::<ClientAction, Error>(Error::MalformedPacket),
        }
    } else if name == names::exit_signal() {
        match (parse_u8(b, p), parse_string(b, p + 1)) {
            (Some(_), Some((sig, q1))) => match parse_u8(b, q1) {
                Some((cd, q2)) => match parse_string(b, q2) {
                    Some((m, q3)) => match parse_string(b, q3) {
                        Some((l, _)) => match r {
                            Ok(ClientAction::ExitSignal { channel, signal_name, core_dumped, error_message, lang_tag }) =>
                                channel == ch && signal_name@ == sig && core_dumped == (cd != 0) && error_message@ == m
                                && lang_tag@ == l,
                            _ => false,
                        },
                        None => r == Err::<ClientAction, Error>(Error::MalformedPacket),
                    },
                    None => r == Err::<ClientAction, Error>(Error::MalformedPacket),
                },
                None => r == Err::<ClientAction, Error>(Error::MalformedPacket),
            },
            _ => r == Err::<ClientAction, Error>(Error::MalformedPacket),
        }
    } else {
        r matches Ok(ClientAction::Done)
    }
}

/// What reading a packet does once authenticated, on the client: see
/// `Session::client_read_authenticated`.
pub open spec fn client_authenticated_effect(e: Encrypted, f: Encrypted, window_size: u32, b: Seq<u8>, r: Result<ClientAction, Error>) -> bool {
    let op = b[0];
    if op == msg::CHANNEL_OPEN_CONFIRMATION {
        match (parse_u32(b, 1), parse_u32(b, 5), parse_u32(b, 9), parse_u32(b, 13)) {
            (Some((id, _)), Some((recv, _)), Some((w, _)), Some((m, _))) => match find_index(e.channels@, ChannelId(id)) {
                Some(i) => {
                    &&& f == (Encrypted { channels: f.channels, ..e })
                    &&& f.channels@ == e.channels@.update(i, Channel {
                        recipient_channel: recv,
                        recipient_window_size: w,
                        recipient_maximum_packet_size: m,
                        confirmed: true,
                        ..e.channels@[i]
                    })
                    &&& r matches Ok(ClientAction::ChannelOpenConfirmation { channel }) && channel == ChannelId(id)
                },
                None => r == Err::<ClientAction, Error>(Error::Inconsistent) && f == e,
            },
            _ => r == Err::<ClientAction, Error>(Error::MalformedPacket) && f == e,
        }
    } else if op == msg::CHANNEL_CLOSE || op == msg::CHANNEL_EOF {
        match parse_u32(b, 1) {
            Some((c, _)) => if op == msg::CHANNEL_CLOSE {
                &&& r matches Ok(ClientAction::ChannelClose { channel }) && channel == ChannelId(c)
                &&& f == (Encrypted { channels: f.channels, ..e })
                &&& !has_channel(f.channels@, ChannelId(c))
                &&& channel_removed(e.channels@, f.channels@, ChannelId(c))
            } else {
                (r matches Ok(ClientAction::ChannelEof { channel }) && channel == ChannelId(c)) && f == e
            },
            None => r == Err::<ClientAction, Error>(Error::MalformedPacket) && f == e,
        }
    } else if op == msg::CHANNEL_OPEN_FAILURE {
        match (parse_u32(b, 1), parse_u32(b, 5), parse_string(b, 9)) {
            (Some((c, _)), Some((reason_code, _)), Some((d, q))) => match parse_string(b, q) {
                Some((l, _)) => {
                    &&& f == (Encrypted { channels: f.channels, ..e })
                    &&& !has_channel(f.channels@, ChannelId(c))
                    &&& channel_removed(e.channels@, f.channels@, ChannelId(c))
                    &&& match r {
                        Ok(ClientAction::ChannelOpenFailure { channel, reason, description, language }) => channel
                            == ChannelId(c) && reason == reason_code && description@ == d && language@ == l,
                        _ => false,
                    }
                },
                None => r == Err::<ClientAction, Error>(Error::MalformedPacket) && f == e,
            },
            _ => r == Err::<ClientAction, Error>(Error::MalformedPacket) && f == e,
        }
    } else if op == msg::CHANNEL_DATA || op == msg::CHANNEL_EXTENDED_DATA {
        match parse_data(b) {
            Some((c, code, d)) => {
                &&& data_received(e, f, ChannelId(c), d.len() as int, window_size)
                &&& match (r, code) {
                    (Ok(ClientAction::Data { channel, data }), None) => channel == ChannelId(c) && data@ == d,
                    (Ok(ClientAction::ExtendedData { channel, code: x, data }), Some(y)) => channel == ChannelId(c)
                        && x == y && data@ == d,
                    _ => false,
                }
            },
            None => r == Err::<ClientAction, Error>(Error::MalformedPacket) && f == e,
        }
    } else if op == msg::CHANNEL_REQUEST {
        &&& f == e
        &&& match (parse_u32(b, 1), parse_string(b, 5)) {
            (Some((c, _)), Some((name, p))) => client_request_matches(r, ChannelId(c), name, b, p),
            _ => r == Err::<ClientAction, Error>(Error::MalformedPacket),
        }
    } else if op == msg::CHANNEL_WINDOW_ADJUST {
        match (parse_u32(b, 1), parse_u32(b, 5)) {
            (Some((c, _)), Some((amount, _))) => match find_index(e.channels@, ChannelId(c)) {
                Some(i) => {
                    let ch = e.channels@[i];
                    if ch.recipient_window_size + amount <= u32::MAX {
                        let w = (ch.recipient_window_size + amount) as u32;
                        &&& f == (Encrypted { channels: f.channels, ..e })
                        &&& f.channels@ == e.channels@.update(i, Channel { recipient_window_size: w, ..ch })
                        &&& r matches Ok(ClientAction::WindowAdjusted { channel, new_window_size })
                            && channel == ChannelId(c) && new_window_size == w
                    } else {
                        r == Err::<ClientAction, Error>(Error::Inconsistent) && f == e
                    }
                },
                None => r == Err::<ClientAction, Error>(Error::WrongChannel) && f == e,
            },
            _ => r == Err::<ClientAction, Error>(Error::MalformedPacket) && f == e,
        }
    } else if op == msg::GLOBAL_REQUEST {
        f == e && match parse_string(b, 1) {
            Some(_) => r matches Ok(ClientAction::Done),
            None => r == Err::<ClientAction, Error>(Error::MalformedPacket),
        }
    } else {
        r matches Ok(ClientAction::Done) && f == e
    }
}

impl Session {
    /// Records the user and method to authenticate with, and writes the
    /// request at once where the server waits for one. Returns whether it
    /// did.
    pub fn write_auth_request_if_needed(&mut self, user: &[u8], meth: Method) -> (r: bool)
        ensures
            final(self).auth_user@ == user@,
            final(self).auth_method == Some(meth),
            final(self).kex == old(self).kex,
            final(self).window_size == old(self).window_size,
            match old(self).encrypted {
                Some(e) => {
                    &&& r == waits_for_auth(e.state)
                    &&& final(self).encrypted matches Some(f) && f == (Encrypted { write: f.write, ..e })
                        && f.written() == if r {
                        e.written() + framed(auth_request_payload(user@, meth))
                    } else {
                        e.written()
                    }
                },
                None => !r && final(self).encrypted is None,
            },
    {
        let mut is_waiting = false;
        match self.encrypted.take() {
            Some(mut enc) => {
                is_waiting = match &enc.state {
                    EncryptedState::WaitingAuthRequest(_) => true,
                    EncryptedState::WaitingServiceRequest { accepted } => *accepted,
                    EncryptedState::Authenticated => false,
                };
                if is_waiting {
                    enc.write_auth_request(user, &meth);
                }
                self.encrypted = Some(enc);
            },
            None => {},
        }
        let mut u: Vec<u8> = Vec::new();
        u.extend_from_slice(user);
        assert(u@ =~= user@);
        self.auth_user = u;
        self.auth_method = Some(meth);
        is_waiting
    }

    /// Reads a packet in the encrypted state: KEXINIT starts a
    /// re-exchange where none runs; the service acceptance sends the queued
    /// authentication request; the server's verdicts on authentication are
    /// read; once authenticated, channel traffic is.
    pub fn client_read_encrypted(&mut self, buf: &[u8]) -> (r: Result<ClientAction, Error>)
        requires
            old(self).encrypted matches Some(e) && e.wf(),
            buf@.len() >= 1,
        ensures
            client_read_effect(*old(self), *final(self), buf@, r),
    {
        let mut enc = self.encrypted.take().unwrap();
        let op = buf[0];
        if op == msg::KEXINIT {
            let r = match enc.take_exchange() {
                Some(exchange) => {
                    self.kex = Some(Kex::KexDhDone);
                    Ok(ClientAction::Rekey { exchange })
                },
                None => Ok(ClientAction::Done),
            };
            self.encrypted = Some(enc);
            return r;
        }
        let ghost e0 = enc;
        let r = match &enc.state {
            EncryptedState::WaitingServiceRequest { .. } => {
                if op == msg::SERVICE_ACCEPT {
                    match read_string(buf, 1) {
                        Some((name, _)) => {
                            if bytes_eq(name.as_slice(), crate::server::ssh_userauth_bytes().as_slice()) {
                                enc.state = EncryptedState::WaitingServiceRequest { accepted: true };
                                match &self.auth_method {
                                    Some(meth) => {
                                        enc.write_auth_request(self.auth_user.as_slice(), meth);
                                        enc.state = EncryptedState::WaitingAuthRequest(AuthRequest {
                                            methods: MethodSet::all(),
                                            partial_success: false,
                                            current: None,
                                            rejection_count: 0,
                                        });
                                    },
                                    None => {},
                                }
                            }
                            Ok(ClientAction::Done)
                        },
                        None => Err(Error::MalformedPacket),
                    }
                } else {
                    Err(Error::Inconsistent)
                }
            },
            EncryptedState::WaitingAuthRequest(_) => {
                if op == msg::USERAUTH_SUCCESS {
                    enc.state = EncryptedState::Authenticated;
                    Ok(ClientAction::AuthSuccess)
                } else if op == msg::USERAUTH_BANNER {
                    match read_string(buf, 1) {
                        Some((text, _)) => if is_utf8(text.as_slice()) {
                            Ok(ClientAction::AuthBanner { text })
                        } else {
                            Ok(ClientAction::Done)
                        },
                        None => Err(Error::MalformedPacket),
                    }
                } else if op == msg::USERAUTH_FAILURE {
                    match read_string(buf, 1) {
                        Some((list, _)) => {
                            let m = MethodSet::from_name_list(list.as_slice());
                            let mut st = EncryptedState::Authenticated;
                            std::mem::swap(&mut enc.state, &mut st);
                            match st {
                                EncryptedState::WaitingAuthRequest(a) => {
                                    enc.state = EncryptedState::WaitingAuthRequest(AuthRequest { methods: m, ..a });
                                },
                                _ => {
                                    enc.state = st;
                                },
                            }
                            self.auth_method = None;
                            Ok(ClientAction::AuthFailure { fatal: m.is_empty() })
                        },
                        None => Err(Error::MalformedPacket),
                    }
                } else if op == msg::USERAUTH_PK_OK {
                    let mut st = EncryptedState::Authenticated;
                    std::mem::swap(&mut enc.state, &mut st);
                    match st {
                        EncryptedState::WaitingAuthRequest(a) => {
                            match a.current {
                                Some(CurrentRequest::PublicKey { key, algo, .. }) => {
                                    enc.state = EncryptedState::WaitingAuthRequest(AuthRequest {
                                        current: Some(CurrentRequest::PublicKey { key, algo, sent_pk_ok: true }),
                                        ..a
                                    });
                                },
                                _ => {
                                    enc.state = EncryptedState::WaitingAuthRequest(a);
                                },
                            }
                        },
                        _ => {
                            enc.state = st;
                        },
                    }
                    match self.auth_method.take() {
                        Some(Method::PublicKey { key }) => {
                            let (data, start) = enc.client_make_to_sign(self.auth_user.as_slice(), &key);
                            Ok(ClientAction::Sign { data, start })
                        },
                        Some(Method::FuturePublicKey { key }) => {
                            let (data, start) = enc.client_make_to_sign(self.auth_user.as_slice(), &key);
                            Ok(ClientAction::SignRequest { key, data, start })
                        },
                        _ => Ok(ClientAction::Done),
                    }
                } else {
                    Err(Error::Inconsistent)
                }
            },
            EncryptedState::Authenticated => {
                enc.client_read_authenticated(self.window_size, buf)
            },
        };
        self.encrypted = Some(enc);
        r
    }

    /// Routes a packet: to the key exchange while one runs, putting new keys
    /// in force on NEWKEYS (the first time under the derived session id,
    /// afterwards keeping the state and session id); otherwise to the
    /// encrypted state.
    pub fn reply(&mut self, buf: &[u8]) -> (r: Result<ClientAction, Error>)
        requires
            old(self).encrypted matches Some(e) ==> e.wf(),
            buf@.len() >= 1,
        ensures
            match old(self).kex {
                Some(Kex::NewKeys(nk)) => if buf@[0] != msg::NEWKEYS {
                    r == Err::<ClientAction, Error>(Error::Kex) && final(self).kex is None && final(self).encrypted
                        == old(self).encrypted
                } else {
                    &&& r matches Ok(ClientAction::Done)
                    &&& final(self).kex is None
                    &&& final(self).auth_user == old(self).auth_user
                    &&& final(self).auth_method == old(self).auth_method
                    &&& match (old(self).encrypted, final(self).encrypted) {
                        (Some(e), Some(f)) => f == (Encrypted { exchange: Some(nk.exchange), ..e }),
                        (None, Some(f)) => f.state == (EncryptedState::WaitingServiceRequest { accepted: false })
                            && f.session_id == nk.session_id && f.exchange == Some(nk.exchange)
                            && f.channels@.len() == 0 && f.written().len() == 0 && f.wf(),
                        _ => false,
                    }
                },
                Some(_) => r matches Ok(ClientAction::Kex) && *final(self) == *old(self),
                None => if old(self).encrypted is None {
                    r == Err::<ClientAction, Error>(Error::Inconsistent) && *final(self) == *old(self)
                } else {
                    client_read_effect(*old(self), *final(self), buf@, r)
                },
            },
    {
        match self.kex.take() {
            Some(Kex::NewKeys(nk)) => {
                if buf[0] != msg::NEWKEYS {
                    return Err(Error::Kex);
                }
                self.install_newkeys(nk);
                Ok(ClientAction::Done)
            },
            Some(k) => {
                self.kex = Some(k);
                Ok(ClientAction::Kex)
            },
            None => {
                if self.encrypted.is_none() {
                    return Err(Error::Inconsistent);
                }
                self.client_read_encrypted(buf)
            },
        }
    }

    fn install_newkeys(&mut self, nk: NewKeys)
        ensures
            final(self).kex == old(self).kex,
            final(self).auth_user == old(self).auth_user,
            final(self).auth_method == old(self).auth_method,
            final(self).window_size == old(self).window_size,
            match (old(self).encrypted, final(self).encrypted) {
                (Some(e), Some(f)) => f == (Encrypted { exchange: Some(nk.exchange), ..e }),
                (None, Some(f)) => f.state == (EncryptedState::WaitingServiceRequest { accepted: false })
                    && f.session_id == nk.session_id && f.exchange == Some(nk.exchange)
                    && f.channels@.len() == 0 && f.written().len() == 0 && f.wf(),
                _ => false,
            },
    {
        match self.encrypted.take() {
            Some(mut e) => {
                e.exchange = Some(nk.exchange);
                self.encrypted = Some(e);
            },
            None => {
                self.encrypted = Some(
                    Encrypted::new(
                        EncryptedState::WaitingServiceRequest { accepted: false },
                        nk.session_id,
                        nk.exchange,
                        crypto_vec_new(),
                    ),
                );
            },
        }
    }
}

/// Reads the body of a channel request that the server sent.
pub fn client_read_channel_request(ch: ChannelId, name: &[u8], buf: &[u8], p: usize) -> (r: Result<ClientAction, Error>)
    ensures
        client_request_matches(r, ch, name@, buf@, p as int),
{
    if bytes_eq(name, names::forwarded_tcpip_bytes().as_slice()) {
        let (a, q1) = match read_string(buf, p) {
            Some(x) => x,
            None => return Err(Error::MalformedPacket),
        };
        let (ap, q2) = match read_u32(buf, q1) {
            Some(x) => x,
            None => return Err(Error::MalformedPacket),
        };
        let (o, q3) = match read_string(buf, q2) {
            Some(x) => x,
            None => return Err(Error::MalformedPacket),
        };
        let (op, _) = match read_u32(buf, q3) {
            Some(x) => x,
            None => return Err(Error::MalformedPacket),
        };
        Ok(ClientAction::ForwardedTcpip {
            channel: ch,
            connected_address: a,
            connected_port: ap,
            originator_address: o,
            originator_port: op,
        })
    } else if bytes_eq(name, names::xon_xoff_bytes().as_slice()) {
        let (_, q) = match read_u8(buf, p) {
            Some(x) => x,
            None => return Err(Error::MalformedPacket),
        };
        let (x, _) = match read_u8(buf, q) {
            Some(x) => x,
            None => return Err(Error::MalformedPacket),
        };
        Ok(ClientAction::XonXoff { channel: ch, client_can_do: x != 0 })
    } else if bytes_eq(name, names::exit_status_bytes().as_slice()) {
        let (_, q) = match read_u8(buf, p) {
            Some(x) => x,
            None => return Err(Error::MalformedPacket),
        };
        let (x, _) = match read_u32(buf, q) {
            Some(x) => x,
            None => return Err(Error::MalformedPacket),
        };
        Ok(ClientAction::ExitStatus { channel: ch, exit_status: x })
    } else if bytes_eq(name, names::exit_signal_bytes().as_slice()) {
        let (_, q) = match read_u8(buf, p) {
            Some(x) => x,
            None => return Err(Error::MalformedPacket),
        };
        let (sig, q1) = match read_string(buf, q) {
            Some(x) => x,
            None => return Err(Error::MalformedPacket),
        };
        let (cd, q2) = match read_u8(buf, q1) {
            Some(x) => x,
            None => return Err(Error::MalformedPacket),
        };
        let (m, q3) = match read_string(buf, q2) {
            Some(x) => x,
            None => return Err(Error::MalformedPacket),
        };
        let (l, _) = match read_string(buf, q3) {
            Some(x) => x,
            None => return Err(Error::MalformedPacket),
        };
        Ok(ClientAction::ExitSignal {
            channel: ch,
            signal_name: sig,
            core_dumped: cd != 0,
            error_message: m,
            lang_tag: l,
        })
    } else {
        Ok(ClientAction::Done)
    }
}

} // verus!
