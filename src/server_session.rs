//! The server's session: routing each packet to the key exchange or to the
//! encrypted state, and the top-level dispatch by state.
use crate::codec::{crypto_vec_new, framed, parse_string, read_string};
use crate::msg;
use crate::server::{
    auth_of, auth_request_effect, bytes_eq, info_response_effect, server_accept_service,
    service_accept_payload, banner_payload, ssh_userauth, Config, ServerAction,
};
use crate::server_channel::authenticated_effect;
use crate::session::{state_rank, Encrypted, EncryptedState, Error, Exchange};
use vstd::prelude::*;
use vstd::utf8::encode_utf8;

verus! {

/// What the key exchange hands over once the new keys are in force: the
/// exchange to keep for the next one, and the session id it derived.
pub struct NewKeys {
    pub exchange: Exchange,
    pub session_id: Vec<u8>,
}

/// Where a key exchange stands, as the session sees it.
pub enum Kex {
    /// KEXINIT was sent; `algo_chosen` once the peer's was read.
    KexInit { algo_chosen: bool },
    /// The Diffie-Hellman exchange is running.
    KexDh,
    /// The client waits for the server's reply.
    KexDhDone,
    /// The keys are derived; NEWKEYS from the peer puts them in force.
    NewKeys(NewKeys),
}

/// What the driver does with a packet that the transport decrypted.
#[derive(Debug, Clone, Copy, PartialEq, Eq, Structural)]
pub enum Inbound {
    /// End the session: the peer disconnects, or the packet is empty.
    Disconnect,
    /// Skip it: IGNORE, UNIMPLEMENTED or DEBUG.
    Ignore,
    /// Route it with `Session::reply`.
    Packet,
}

/// Sorts a decrypted payload by its message number.
pub fn inbound_kind(payload: &[u8]) -> (r: Inbound)
    ensures
        r == if payload@.len() == 0 || payload@[0] == msg::DISCONNECT {
            Inbound::Disconnect
        } else if payload@[0] <= msg::DEBUG {
            Inbound::Ignore
        } else {
            Inbound::Packet
        },
{
    if payload.len() == 0 || payload[0] == msg::DISCONNECT {
        Inbound::Disconnect
    } else if payload[0] <= msg::DEBUG {
        Inbound::Ignore
    } else {
        Inbound::Packet
    }
}

/// A server's connection.
pub struct Session {
    pub encrypted: Option<Encrypted>,
    pub kex: Option<Kex>,
    pub auth_user: Vec<u8>,
    pub wants_reply: bool,
    pub disconnected: bool,
    pub config: Config,
}

/// What reading a packet in the encrypted state does: see
/// `Session::server_read_encrypted`.
pub open spec fn read_encrypted_effect(s0: Session, s1: Session, b: Seq<u8>, r: Result<ServerAction, Error>) -> bool {
    let e = s0.encrypted.unwrap();
    let f = s1.encrypted.unwrap();
    let op = b[0];
    &&& s1.encrypted is Some
    &&& s1.wf()
    &&& s1.config == s0.config
    &&& s1.disconnected == (s0.disconnected || r == Ok::<ServerAction, Error>(ServerAction::RejectedLast))
    &&& f.session_id == e.session_id
    &&& state_rank(f.state) >= state_rank(e.state)
    &&& op != msg::KEXINIT ==> s1.kex == s0.kex
    &&& !(op == msg::USERAUTH_REQUEST && e.state is WaitingAuthRequest) ==> s1.auth_user == s0.auth_user
    &&& !(op == msg::GLOBAL_REQUEST && e.state is Authenticated) ==> s1.wants_reply == s0.wants_reply
    &&& if op == msg::KEXINIT {
        match e.exchange {
            Some(x) => {
                &&& r matches Ok(ServerAction::Rekey { exchange }) && exchange == x
                &&& f == (Encrypted { exchange: None, ..e })
                &&& s1.kex == Some(Kex::KexInit { algo_chosen: true })
            },
            None => r matches Ok(ServerAction::Done) && f == e && s1.kex == s0.kex,
        }
    } else {
        match e.state {
            EncryptedState::WaitingServiceRequest { .. } => if op == msg::SERVICE_REQUEST {
                match parse_string(b, 1) {
                    Some((name, _)) => {
                        &&& r matches Ok(ServerAction::Done)
                        &&& if name == ssh_userauth() {
                            &&& f.state == EncryptedState::WaitingAuthRequest(crate::auth::AuthRequest {
                                methods: s0.config.methods,
                                partial_success: false,
                                current: None,
                                rejection_count: 0,
                            })
                            &&& f.written() == e.written() + framed(service_accept_payload()) + match s0.config.auth_banner {
                                Some(t) => framed(banner_payload(encode_utf8(t@))),
                                None => Seq::<u8>::empty(),
                            }
                            &&& f == (Encrypted { state: f.state, write: f.write, ..e })
                        } else {
                            f == e
                        }
                    },
                    None => r == Err::<ServerAction, Error>(Error::MalformedPacket) && f == e,
                }
            } else {
                r == Err::<ServerAction, Error>(Error::Inconsistent) && f == e
            },
            EncryptedState::WaitingAuthRequest(_) => if op == msg::USERAUTH_REQUEST {
                auth_request_effect(e, f, s0.auth_user, s1.auth_user, b, r, s0.config.max_auth_attempts)
            } else if op == msg::USERAUTH_INFO_RESPONSE {
                info_response_effect(e, f, s0.auth_user, b, r, s0.config.max_auth_attempts)
            } else {
                r matches Ok(ServerAction::Done) && f == e
            },
            EncryptedState::Authenticated => authenticated_effect(
                e,
                f,
                s0.config.window_size,
                s0.config.maximum_packet_size,
                s0.wants_reply,
                s1.wants_reply,
                b,
                r,
            ),
        }
    }
}

/// What routing a packet does: see `Session::reply`.
pub open spec fn reply_effect(s0: Session, s1: Session, b: Seq<u8>, r: Result<ServerAction, Error>) -> bool {
    match s0.kex {
        Some(Kex::KexInit { algo_chosen }) => if algo_chosen || b[0] == msg::KEXINIT
            || s0.encrypted is None {
            r matches Ok(ServerAction::Kex) && s1 == s0
        } else {
            read_encrypted_effect(Session { kex: None, ..s0 }, s1, b, r)
        },
        Some(Kex::KexDh) => r matches Ok(ServerAction::Kex) && s1 == s0,
        Some(Kex::NewKeys(nk)) => if b[0] != msg::NEWKEYS {
            r == Err::<ServerAction, Error>(Error::Kex) && s1.encrypted == s0.encrypted && s1.kex is None
        } else {
            &&& r matches Ok(ServerAction::Done)
            &&& s1.kex is None
            &&& match (s0.encrypted, s1.encrypted) {
                (Some(e), Some(f)) => f == (Encrypted { exchange: Some(nk.exchange), ..e }),
                (None, Some(f)) => f.state == (EncryptedState::WaitingServiceRequest { accepted: false })
                    && f.session_id == nk.session_id && f.exchange == Some(nk.exchange)
                    && f.channels@.len() == 0,
                _ => false,
            }
        },
        Some(Kex::KexDhDone) => r matches Ok(ServerAction::Done) && s1 == s0,
        None => if s0.encrypted is None {
            r == Err::<ServerAction, Error>(Error::Inconsistent) && s1 == s0
        } else {
            read_encrypted_effect(s0, s1, b, r)
        },
    }
}

impl Session {
    pub open spec fn wf(&self) -> bool {
        self.encrypted matches Some(e) ==> e.wf()
    }

    /// Puts new keys in force. The first time, the encrypted state starts
    /// waiting for a service request under the derived session id; after a
    /// re-exchange, the state and the session id stay as they were and the
    /// exchange is kept for the next one.
    pub fn install_newkeys(&mut self, nk: NewKeys)
        requires
            old(self).wf(),
        ensures
            final(self).wf(),
            final(self).kex == old(self).kex,
            final(self).auth_user == old(self).auth_user,
            match (old(self).encrypted, final(self).encrypted) {
                (Some(e), Some(f)) => f == (Encrypted { exchange: Some(nk.exchange), ..e }),
                (None, Some(f)) => f.state == (EncryptedState::WaitingServiceRequest { accepted: false })
                    && f.session_id == nk.session_id && f.exchange == Some(nk.exchange)
                    && f.channels@.len() == 0 && f.written().len() == 0,
                _ => false,
            },
    {
        match self.encrypted.take() {
            Some(mut e) => {
                e.exchange = Some(nk.exchange);
                self.encrypted = Some(e);
            },
            None => {
                self.encrypted = Some(
                    Encrypted::new(
                        EncryptedState::WaitingServiceRequest { accepted: false },
                        nk.session_id,
                        nk.exchange,
                        crypto_vec_new(),
                    ),
                );
            },
        }
    }

    /// Reads a packet in the encrypted state. KEXINIT starts a re-exchange
    /// where none is running. Waiting for a service request, only
    /// SERVICE_REQUEST is accepted, and "ssh-userauth" starts the
    /// authentication; waiting for authentication, USERAUTH_REQUEST and
    /// USERAUTH_INFO_RESPONSE are read; once authenticated, channel traffic
    /// is. Other packets are ignored.
    pub fn server_read_encrypted(&mut self, buf: &[u8]) -> (r: Result<ServerAction, Error>)
        requires
            old(self).wf(),
            old(self).encrypted is Some,
            buf@.len() >= 1,
        ensures
            read_encrypted_effect(*old(self), *final(self), buf@, r),
    {
        let mut enc = self.encrypted.take().unwrap();
        let op = buf[0];
        if op == msg::KEXINIT {
            let r = match enc.take_exchange() {
                Some(exchange) => {
                    self.kex = Some(Kex::KexInit { algo_chosen: true });
                    Ok(ServerAction::Rekey { exchange })
                },
                None => {
                    proof {
                        assert(enc == old(self).encrypted.unwrap());
                    }
                    Ok(ServerAction::Done)
                },
            };
            self.encrypted = Some(enc);
            return r;
        }
        let r = match &enc.state {
            EncryptedState::WaitingServiceRequest { .. } => {
                if op == msg::SERVICE_REQUEST {
                    match read_string(buf, 1) {
                        Some((name, _)) => {
                            if bytes_eq(name.as_slice(), crate::server::ssh_userauth_bytes().as_slice()) {
                                let a = server_accept_service(&self.config.auth_banner, self.config.methods, &mut enc.write);
                                enc.state = EncryptedState::WaitingAuthRequest(a);
                            }
                            Ok(ServerAction::Done)
                        },
                        None => Err(Error::MalformedPacket),
                    }
                } else {
                    Err(Error::Inconsistent)
                }
            },
            EncryptedState::WaitingAuthRequest(_) => {
                if op == msg::USERAUTH_REQUEST {
                    enc.server_read_auth_request(&mut self.auth_user, buf, self.config.max_auth_attempts)
                } else if op == msg::USERAUTH_INFO_RESPONSE {
                    enc.read_userauth_info_response(&self.auth_user, buf, self.config.max_auth_attempts)
                } else {
                    Ok(ServerAction::Done)
                }
            },
            EncryptedState::Authenticated => {
                enc.server_read_authenticated(
                    self.config.window_size,
                    self.config.maximum_packet_size,
                    &mut self.wants_reply,
                    buf,
                )
            },
        };
        self.encrypted = Some(enc);
        if let Ok(ServerAction::RejectedLast) = r {
            self.disconnected = true;
        }
        r
    }

    /// Routes a packet: to the key exchange while one runs, putting new
    /// keys in force on NEWKEYS; otherwise to the encrypted state. A
    /// KEXINIT of ours that the peer has not answered does not hold its
    /// other packets back.
    pub fn reply(&mut self, buf: &[u8]) -> (r: Result<ServerAction, Error>)
        requires
            old(self).wf(),
            buf@.len() >= 1,
        ensures
            final(self).wf(),
            reply_effect(*old(self), *final(self), buf@, r),
    {
        match self.kex.take() {
            Some(Kex::KexInit { algo_chosen }) => {
                if algo_chosen || buf[0] == msg::KEXINIT || self.encrypted.is_none() {
                    self.kex = Some(Kex::KexInit { algo_chosen });
                    return Ok(ServerAction::Kex);
                }
            },
            Some(Kex::KexDh) => {
                self.kex = Some(Kex::KexDh);
                return Ok(ServerAction::Kex);
            },
            Some(Kex::NewKeys(nk)) => {
                if buf[0] != msg::NEWKEYS {
                    return Err(Error::Kex);
                }
                self.install_newkeys(nk);
                return Ok(ServerAction::Done);
            },
            Some(Kex::KexDhDone) => {
                self.kex = Some(Kex::KexDhDone);
                return Ok(ServerAction::Done);
            },
            None => {},
        }
        if self.encrypted.is_none() {
            return Err(Error::Inconsistent);
        }
        self.server_read_encrypted(buf)
    }

    /// Ends the session where an answer to the handler's verdict used up the
    /// attempts allowed.
    pub fn end_if_last_rejection(&mut self, action: &ServerAction)
        ensures
            *final(self) == (Session { disconnected: old(self).disconnected || action is RejectedLast, ..*old(self) }),
    {
        if let ServerAction::RejectedLast = action {
            self.disconnected = true;
        }
    }
}

} // verus!
