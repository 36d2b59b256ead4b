//! The server's side of the encrypted session: service acceptance, user
//! authentication with uniform rejections, and channel traffic.
use crate::auth::{method_list, name_password, name_publickey, name_keyboard_interactive, Auth,
    AuthRequest, CurrentRequest, MethodSet, Response};
use crate::codec::{bool_byte, crypto_bytes, framed, parse_string, parse_u32, parse_u8, push_packet,
    push_string, push_u32, read_string, read_u32, read_u8, ssh_string, u32_be};
use crate::msg;
use crate::session::{
    state_rank, ChannelId, Encrypted, EncryptedState, Error,
};
use vstd::prelude::*;
use vstd::utf8::encode_utf8;

verus! {

/// A server's configuration. Durations are in milliseconds.
#[derive(Debug, Clone)]
pub struct Config {
    /// The identification string sent first.
    pub server_id: String,
    /// The authentication methods offered.
    pub methods: MethodSet,
    /// A message shown to the client before authentication.
    pub auth_banner: Option<String>,
    /// The least time that a rejected authentication takes.
    pub auth_rejection_time_ms: u64,
    /// The initial and target window of a channel.
    pub window_size: u32,
    /// The largest packet on a channel.
    pub maximum_packet_size: u32,
    /// The number of rejections after which the connection ends.
    pub max_auth_attempts: usize,
    /// The idle time after which the connection ends.
    pub connection_timeout_ms: Option<u64>,
}

impl Config {
    /// One second of rejection time, windows and packets of 200000 bytes,
    /// ten attempts and ten minutes of idle time, every method, no banner.
    pub fn default() -> (r: Config)
        ensures
            r.server_id@ == "SSH-2.0-thrussh"@,
            r.methods == MethodSet::all_spec(),
            r.auth_banner.is_none(),
            r.auth_rejection_time_ms == 1000,
            r.window_size == 200000,
            r.maximum_packet_size == 200000,
            r.max_auth_attempts == 10,
            r.connection_timeout_ms == Some(600000u64),
    {
        proof {
            reveal_strlit("SSH-2.0-thrussh");
        }
        Config {
            server_id: "SSH-2.0-thrussh".to_owned(),
            methods: MethodSet::all(),
            auth_banner: None,
            auth_rejection_time_ms: 1000,
            window_size: 200000,
            maximum_packet_size: 200000,
            max_auth_attempts: 10,
            connection_timeout_ms: Some(600000),
        }
    }
}

pub open spec fn ssh_userauth() -> Seq<u8> {
    seq![115u8, 115, 104, 45, 117, 115, 101, 114, 97, 117, 116, 104]
}

pub open spec fn ssh_connection() -> Seq<u8> {
    seq![115u8, 115, 104, 45, 99, 111, 110, 110, 101, 99, 116, 105, 111, 110]
}

pub(crate) fn ssh_userauth_bytes() -> (r: Vec<u8>)
    ensures
        r@ == ssh_userauth(),
{
    let r: Vec<u8> = vec![115u8, 115, 104, 45, 117, 115, 101, 114, 97, 117, 116, 104];
    r
}

pub(crate) fn ssh_connection_bytes() -> (r: Vec<u8>)
    ensures
        r@ == ssh_connection(),
{
    let r: Vec<u8> = vec![115u8, 115, 104, 45, 99, 111, 110, 110, 101, 99, 116, 105, 111, 110];
    r
}

/// Whether two byte strings are equal.
pub fn bytes_eq(a: &[u8], b: &[u8]) -> (r: bool)
    ensures
        r == (a@ == b@),
{
    if a.len() != b.len() {
        return false;
    }
    let mut i: usize = 0;
    while i < a.len()
        invariant
            a@.len() == b@.len(),
            i <= a@.len(),
            forall|k: int| 0 <= k < i ==> a@[k] == b@[k],
        decreases a@.len() - i,
    {
        if a[i] != b[i] {
            return false;
        }
        i = i + 1;
    }
    assert(a@ =~= b@);
    true
}

/// The payload of SERVICE_ACCEPT for the user authentication service.
pub open spec fn service_accept_payload() -> Seq<u8> {
    seq![msg::SERVICE_ACCEPT] + ssh_string(ssh_userauth())
}

/// The payload of USERAUTH_BANNER, with an empty language tag.
pub open spec fn banner_payload(text: Seq<u8>) -> Seq<u8> {
    seq![msg::USERAUTH_BANNER] + ssh_string(text) + ssh_string(Seq::empty())
}

/// The payload of USERAUTH_FAILURE.
pub open spec fn failure_payload(methods: MethodSet, partial: bool) -> Seq<u8> {
    seq![msg::USERAUTH_FAILURE] + ssh_string(method_list(methods)) + seq![bool_byte(partial)]
}

/// The payload of USERAUTH_SUCCESS.
pub open spec fn success_payload() -> Seq<u8> {
    seq![msg::USERAUTH_SUCCESS]
}

/// The payload of USERAUTH_PK_OK.
pub open spec fn pk_ok_payload(algo: Seq<u8>, key: Seq<u8>) -> Seq<u8> {
    seq![msg::USERAUTH_PK_OK] + ssh_string(algo) + ssh_string(key)
}

/// The prompts of USERAUTH_INFO_REQUEST, each with its echo flag.
pub open spec fn prompts_bytes(ps: Seq<(String, bool)>) -> Seq<u8>
    decreases ps.len(),
{
    if ps.len() == 0 {
        Seq::empty()
    } else {
        prompts_bytes(ps.drop_last()) + ssh_string(encode_utf8(ps.last().0@)) + seq![
            bool_byte(ps.last().1),
        ]
    }
}

/// The payload of USERAUTH_INFO_REQUEST, with an empty language tag.
pub open spec fn info_request_payload(
    name: Seq<u8>,
    instructions: Seq<u8>,
    prompts: Seq<(String, bool)>,
) -> Seq<u8> {
    seq![msg::USERAUTH_INFO_REQUEST] + ssh_string(name) + ssh_string(instructions) + ssh_string(
        Seq::empty(),
    ) + u32_be(prompts.len() as u32) + prompts_bytes(prompts)
}

/// An authentication request after a rejection: nothing is pending, and one
/// more rejection is counted (saturating).
pub open spec fn after_rejection(a: AuthRequest) -> AuthRequest {
    AuthRequest {
        current: None,
        rejection_count: if a.rejection_count < usize::MAX {
            (a.rejection_count + 1) as usize
        } else {
            a.rejection_count
        },
        ..a
    }
}

/// The fields of `e` that only channel traffic and authentication change.
pub open spec fn same_frame(e: Encrypted, f: Encrypted) -> bool {
    &&& f.session_id == e.session_id
    &&& f.exchange == e.exchange
    &&& f.last_channel_id == e.last_channel_id
    &&& f.channels == e.channels
}

/// What the driver does once the server has read a packet.
pub enum ServerAction {
    /// Nothing more: flush what was written.
    Done,
    /// Hand the packet to the key exchange in progress.
    Kex,
    /// The peer asks for a key re-exchange: run it from this exchange.
    Rekey { exchange: crate::session::Exchange },
    /// A rejection was written: wait until the deadline taken when the
    /// request arrived, then flush.
    Rejected,
    /// A rejection was written that used up the attempts allowed: wait
    /// until the deadline, then end the session.
    RejectedLast,
    /// Ask the handler about a password.
    AuthPassword { user: Vec<u8>, password: Vec<u8> },
    /// Parse a public key, then hand it to `server_public_key_parsed`.
    ParsePublicKey { user: Vec<u8>, algo: Vec<u8>, key: Vec<u8>, is_real: bool, pos: usize },
    /// Ask the handler about a public key offered without signature, then
    /// hand the answer to `server_probe_answered`.
    AuthPublicKeyProbe { user: Vec<u8>, algo: Vec<u8>, key: Vec<u8> },
    /// Ask the handler about a public key before its signature is checked,
    /// then hand the answer to `server_signed_key_answered`.
    AuthPublicKeySigned { user: Vec<u8>, signed: Vec<u8>, signature: Vec<u8> },
    /// Check the signature over `signed` under the key, then hand the result
    /// to `server_signature_checked`.
    CheckSignature { signed: Vec<u8>, signature: Vec<u8> },
    /// Ask the handler a keyboard-interactive question, then hand the answer
    /// to `reply_userauth_info_response`.
    AuthKeyboardInteractive { user: Vec<u8>, submethods: Vec<u8>, response: Option<Response> },
    ChannelOpenSession { channel: ChannelId },
    ChannelOpenX11 { channel: ChannelId, originator_address: Vec<u8>, originator_port: u32 },
    ChannelOpenDirectTcpip {
        channel: ChannelId,
        host_to_connect: Vec<u8>,
        port_to_connect: u32,
        originator_address: Vec<u8>,
        originator_port: u32,
    },
    ChannelClose { channel: ChannelId },
    ChannelEof { channel: ChannelId },
    Data { channel: ChannelId, data: Vec<u8> },
    ExtendedData { channel: ChannelId, code: u32, data: Vec<u8> },
    WindowAdjusted { channel: ChannelId, new_window_size: u32 },
    PtyRequest {
        channel: ChannelId,
        term: Vec<u8>,
        col_width: u32,
        row_height: u32,
        pix_width: u32,
        pix_height: u32,
        modes: Vec<(u8, u32)>,
    },
    X11Request {
        channel: ChannelId,
        single_connection: bool,
        x11_auth_protocol: Vec<u8>,
        x11_auth_cookie: Vec<u8>,
        x11_screen_number: u32,
    },
    EnvRequest { channel: ChannelId, variable_name: Vec<u8>, variable_value: Vec<u8> },
    ShellRequest { channel: ChannelId },
    ExecRequest { channel: ChannelId, data: Vec<u8> },
    SubsystemRequest { channel: ChannelId, name: Vec<u8> },
    WindowChangeRequest {
        channel: ChannelId,
        col_width: u32,
        row_height: u32,
        pix_width: u32,
        pix_height: u32,
    },
    Signal { channel: ChannelId, signal_name: Vec<u8> },
    /// Ask the handler about a forwarding, then hand the answer to
    /// `server_global_reply`.
    TcpipForward { address: Vec<u8>, port: u32 },
    /// Ask the handler about cancelling a forwarding, then hand the answer
    /// to `server_global_reply`.
    CancelTcpipForward { address: Vec<u8>, port: u32 },
}

/// Writes USERAUTH_FAILURE with the methods left, clears the pending
/// request and counts the rejection. The driver then waits until the
/// deadline taken when the request arrived.
pub fn reject_auth_request(write: &mut cryptovec::CryptoVec, auth_request: &mut AuthRequest)
    ensures
        crypto_bytes(*final(write)) == crypto_bytes(*old(write)) + framed(
            failure_payload(old(auth_request).methods, old(auth_request).partial_success),
        ),
        *final(auth_request) == after_rejection(*old(auth_request)),
{
    let list = auth_request.methods.name_list();
    let mut p: Vec<u8> = vec![msg::USERAUTH_FAILURE];
    push_string(&mut p, list.as_slice());
    p.push(if auth_request.partial_success { 1u8 } else { 0u8 });
    assert(p@ =~= failure_payload(auth_request.methods, auth_request.partial_success));
    push_packet(write, p.as_slice());
    auth_request.current = None;
    auth_request.rejection_count = auth_request.rejection_count.saturating_add(1);
}

/// Writes USERAUTH_SUCCESS.
pub fn server_auth_request_success(write: &mut cryptovec::CryptoVec)
    ensures
        crypto_bytes(*final(write)) == crypto_bytes(*old(write)) + framed(success_payload()),
{
    let p: Vec<u8> = vec![msg::USERAUTH_SUCCESS];
    assert(p@ =~= success_payload());
    push_packet(write, p.as_slice());
}

/// Accepts the user authentication service: writes SERVICE_ACCEPT, then the
/// banner if there is one, and returns a fresh authentication request
/// offering `methods`.
pub fn server_accept_service(
    banner: &Option<String>,
    methods: MethodSet,
    write: &mut cryptovec::CryptoVec,
) -> (r: AuthRequest)
    ensures
        crypto_bytes(*final(write)) == crypto_bytes(*old(write)) + framed(service_accept_payload())
            + match banner {
            Some(b) => framed(banner_payload(encode_utf8(b@))),
            None => Seq::<u8>::empty(),
        },
        r == (AuthRequest { methods, partial_success: false, current: None, rejection_count: 0 }),
{
    let mut p: Vec<u8> = vec![msg::SERVICE_ACCEPT];
    push_string(&mut p, ssh_userauth_bytes().as_slice());
    assert(p@ =~= service_accept_payload());
    push_packet(write, p.as_slice());
    let ghost mid = crypto_bytes(*write);
    match banner {
        Some(b) => {
            let mut q: Vec<u8> = vec![msg::USERAUTH_BANNER];
            push_string(&mut q, b.as_str().as_bytes());
            let empty: Vec<u8> = Vec::new();
            push_string(&mut q, empty.as_slice());
            assert(q@ =~= banner_payload(encode_utf8(b@)));
            push_packet(write, q.as_slice());
        },
        None => {
            assert(crypto_bytes(*write) =~= mid + Seq::<u8>::empty());
        },
    }
    AuthRequest { methods, partial_success: false, current: None, rejection_count: 0 }
}

/// Writes the prompts of an information request.
fn push_prompts(p: &mut Vec<u8>, prompts: &Vec<(String, bool)>)
    ensures
        final(p)@ == old(p)@ + prompts_bytes(prompts@),
{
    let mut i: usize = 0;
    while i < prompts.len()
        invariant
            i <= prompts@.len(),
            p@ == old(p)@ + prompts_bytes(prompts@.take(i as int)),
        decreases prompts@.len() - i,
    {
        let ghost before = p@;
        let (ref text, echo) = prompts[i];
        push_string(p, text.as_str().as_bytes());
        p.push(if echo { 1u8 } else { 0u8 });
        assert(prompts@.take(i + 1).drop_last() =~= prompts@.take(i as int));
        assert(p@ =~= before + ssh_string(encode_utf8(prompts@[i as int].0@)) + seq![
            bool_byte(prompts@[i as int].1),
        ]);
        i = i + 1;
    }
    assert(prompts@.take(prompts@.len() as int) =~= prompts@);
}

/// What a keyboard-interactive answer does to the request and the buffer.
/// Returns whether the user is now authenticated.
pub fn reply_userauth_info_response(
    auth_request: &mut AuthRequest,
    write: &mut cryptovec::CryptoVec,
    auth: &Auth,
) -> (r: bool)
    requires
        !(auth is UnsupportedMethod),
    ensures
        r == (auth is Accept),
        match auth {
            Auth::Accept => crypto_bytes(*final(write)) == crypto_bytes(*old(write)) + framed(
                success_payload(),
            ) && *final(auth_request) == *old(auth_request),
            Auth::Reject => crypto_bytes(*final(write)) == crypto_bytes(*old(write)) + framed(
                failure_payload(old(auth_request).methods, false),
            ) && *final(auth_request) == after_rejection(
                AuthRequest { partial_success: false, ..*old(auth_request) },
            ),
            Auth::Partial { name, instructions, prompts } => crypto_bytes(*final(write))
                == crypto_bytes(*old(write)) + framed(
                info_request_payload(encode_utf8(name@), encode_utf8(instructions@), prompts@),
            ) && *final(auth_request) == *old(auth_request),
            Auth::UnsupportedMethod => false,
        },
{
    match auth {
        Auth::Accept => {
            server_auth_request_success(write);
            true
        },
        Auth::Reject => {
            auth_request.partial_success = false;
            reject_auth_request(write, auth_request);
            false
        },
        Auth::Partial { name, instructions, prompts } => {
            let mut p: Vec<u8> = vec![msg::USERAUTH_INFO_REQUEST];
            push_string(&mut p, name.as_str().as_bytes());
            push_string(&mut p, instructions.as_str().as_bytes());
            let empty: Vec<u8> = Vec::new();
            push_string(&mut p, empty.as_slice());
            push_u32(&mut p, #[verifier::truncate] (prompts.len() as u32));
            push_prompts(&mut p, prompts);
            assert(p@ =~= info_request_payload(
                encode_utf8(name@),
                encode_utf8(instructions@),
                prompts@,
            ));
            push_packet(write, p.as_slice());
            false
        },
        Auth::UnsupportedMethod => false,
    }
}

/// The authentication request held by a state waiting for one.
pub open spec fn auth_of(s: EncryptedState) -> AuthRequest
    recommends
        s is WaitingAuthRequest,
{
    match s {
        EncryptedState::WaitingAuthRequest(a) => a,
        _ => arbitrary(),
    }
}

/// The user, service and method that open USERAUTH_REQUEST, and the
/// position after them.
pub open spec fn parse_auth_head(b: Seq<u8>) -> Option<(Seq<u8>, Seq<u8>, Seq<u8>, int)> {
    match parse_string(b, 1) {
        Some((u, p1)) => match parse_string(b, p1) {
            Some((s, p2)) => match parse_string(b, p2) {
                Some((m, p3)) => Some((u, s, m, p3)),
                None => None,
            },
            None => None,
        },
        None => None,
    }
}

/// `f` is `e` after rejecting with the request `a`: the failure is written
/// and `a`, cleared and counted, is the state.
pub open spec fn rejected_with(e: Encrypted, f: Encrypted, a: AuthRequest) -> bool {
    &&& f.state == EncryptedState::WaitingAuthRequest(after_rejection(a))
    &&& f.written() == e.written() + framed(failure_payload(a.methods, a.partial_success))
    &&& same_frame(e, f)
}

/// What the driver is told after rejecting with `a`: the rejection that
/// brings the count to `max_attempts` ends the session.
pub open spec fn rejection_action(a: AuthRequest, max_attempts: usize) -> ServerAction {
    if after_rejection(a).rejection_count >= max_attempts {
        ServerAction::RejectedLast
    } else {
        ServerAction::Rejected
    }
}

/// `f` is `e` after rejecting with `a`, and `r` tells the driver so.
pub open spec fn rejected_as(e: Encrypted, f: Encrypted, r: ServerAction, max_attempts: usize, a: AuthRequest) -> bool {
    r == rejection_action(a, max_attempts) && rejected_with(e, f, a)
}

/// `f` is `e` after rejecting with `a`, and `r` is `Ok` and tells the driver so.
pub open spec fn rejected_ok(e: Encrypted, f: Encrypted, r: Result<ServerAction, Error>, max_attempts: usize, a: AuthRequest) -> bool {
    r == Ok::<ServerAction, Error>(rejection_action(a, max_attempts)) && rejected_with(e, f, a)
}

/// `f` is `e` after an accepted authentication.
pub open spec fn accepted(e: Encrypted, f: Encrypted) -> bool {
    &&& f.state == EncryptedState::Authenticated
    &&& f.written() == e.written() + framed(success_payload())
    &&& same_frame(e, f)
}

/// The bytes that a public key signature covers: the session id as a
/// string, then the request up to the signature.
pub open spec fn signed_data(session_id: Seq<u8>, b: Seq<u8>, pos: int) -> Seq<u8> {
    ssh_string(session_id) + b.subrange(0, pos)
}

/// The signature blob at `pos`: its algorithm, then the signature itself.
pub open spec fn parse_signature(b: Seq<u8>, pos: int) -> Option<Seq<u8>> {
    match parse_string(b, pos) {
        Some((blob, _)) => match parse_string(blob, 0) {
            Some((_, q)) => match parse_string(blob, q) {
                Some((sig, _)) => Some(sig),
                None => None,
            },
            None => None,
        },
        None => None,
    }
}

/// What reading USERAUTH_REQUEST does: see `Encrypted::server_read_auth_request`.
pub open spec fn auth_request_effect(e: Encrypted, f: Encrypted, u0: Vec<u8>, u1: Vec<u8>, b: Seq<u8>, r: Result<ServerAction, Error>, max_attempts: usize) -> bool {
    match parse_auth_head(b) {
        None => r == Err::<ServerAction, Error>(Error::MalformedPacket) && f
            == e && u1 == u0,
        Some((u, svc, m, p)) => if svc != ssh_connection() {
            r == Err::<ServerAction, Error>(Error::Inconsistent) && f == e
                && u1 == u0
        } else if m == name_password() {
            match (parse_u8(b, p), parse_string(b, p + 1)) {
                (Some((flag, _)), Some((pw, _))) => if flag == 0 {
                    &&& u1@ == u
                    &&& f == e
                    &&& match r {
                        Ok(ServerAction::AuthPassword { user, password }) => user@ == u
                            && password@ == pw,
                        _ => false,
                    }
                } else {
                    &&& u1@.len() == 0
                    &&& rejected_ok(e, f, r, max_attempts, AuthRequest {
                        methods: auth_of(e.state).methods.without_password_spec(),
                        partial_success: false,
                        ..auth_of(e.state)
                    })
                },
                _ => r == Err::<ServerAction, Error>(Error::MalformedPacket) && f
                    == e && u1@ == u,
            }
        } else if m == name_publickey() {
            &&& f == e
            &&& u1 == u0
            &&& match (parse_u8(b, p), parse_string(b, p + 1)) {
                (Some((is_real, _)), Some((al, p5))) => match parse_string(b, p5) {
                    Some((k, p6)) => match r {
                        Ok(ServerAction::ParsePublicKey { user, algo, key, is_real: ir, pos }) =>
                            user@ == u && algo@ == al && key@ == k && ir == (is_real != 0)
                            && pos == p6,
                        _ => false,
                    },
                    None => r == Err::<ServerAction, Error>(Error::MalformedPacket),
                },
                _ => r == Err::<ServerAction, Error>(Error::MalformedPacket),
            }
        } else if m == name_keyboard_interactive() {
            &&& u1@ == u
            &&& match parse_string(b, p) {
                Some((_, p4)) => match parse_string(b, p4) {
                    Some((sub, _)) => {
                        &&& f.state == EncryptedState::WaitingAuthRequest(
                            AuthRequest {
                                current: Some(CurrentRequest::KeyboardInteractive { submethods: f.state->WaitingAuthRequest_0.current->Some_0->submethods }),
                                ..auth_of(e.state)
                            },
                        )
                        &&& auth_of(f.state).current->Some_0->submethods@ == sub
                        &&& f.written() == e.written()
                        &&& match r {
                            Ok(ServerAction::AuthKeyboardInteractive { user, submethods, response }) =>
                                user@ == u && submethods@ == sub && response.is_none(),
                            _ => false,
                        }
                    },
                    None => r == Err::<ServerAction, Error>(Error::MalformedPacket)
                        && f == e,
                },
                None => r == Err::<ServerAction, Error>(Error::MalformedPacket) && f
                    == e,
            }
        } else {
            &&& u1 == u0
            &&& rejected_ok(e, f, r, max_attempts, auth_of(e.state))
        },
    }
}

/// What reading USERAUTH_INFO_RESPONSE does: see
/// `Encrypted::read_userauth_info_response`.
pub open spec fn info_response_effect(e: Encrypted, f: Encrypted, u: Vec<u8>, b: Seq<u8>, r: Result<ServerAction, Error>, max_attempts: usize) -> bool {
    match auth_of(e.state).current {
        Some(CurrentRequest::KeyboardInteractive { submethods: sub }) => {
            &&& f == e
            &&& match parse_u32(b, 1) {
                Some((n, p)) => match r {
                    Ok(ServerAction::AuthKeyboardInteractive { user, submethods, response: Some(resp) }) =>
                        user@ == u@ && submethods@ == sub@ && resp.buf@ == b && resp.pos == p
                        && resp.n == n,
                    _ => false,
                },
                None => r == Err::<ServerAction, Error>(Error::MalformedPacket),
            }
        },
        _ => rejected_ok(e, f, r, max_attempts, auth_of(e.state)),
    }
}

impl Encrypted {
    fn take_auth_request(&mut self) -> (r: AuthRequest)
        requires
            old(self).state is WaitingAuthRequest,
        ensures
            r == auth_of(old(self).state),
            *final(self) == (Encrypted { state: EncryptedState::Authenticated, ..*old(self) }),
    {
        let mut st = EncryptedState::Authenticated;
        std::mem::swap(&mut self.state, &mut st);
        match st {
            EncryptedState::WaitingAuthRequest(a) => a,
            _ => {
                proof {
                    assert(false);
                }
                AuthRequest { methods: MethodSet::empty(), partial_success: false, current: None, rejection_count: 0 }
            },
        }
    }

    fn reject_with(&mut self, a: AuthRequest, max_attempts: usize) -> (r: ServerAction)
        ensures
            rejected_as(*old(self), *final(self), r, max_attempts, a),
            final(self).wf() == old(self).wf(),
    {
        let mut a = a;
        reject_auth_request(&mut self.write, &mut a);
        let last = a.rejection_count >= max_attempts;
        self.state = EncryptedState::WaitingAuthRequest(a);
        if last {
            ServerAction::RejectedLast
        } else {
            ServerAction::Rejected
        }
    }

    /// Rejects the request in progress as it stands.
    fn reject_current(&mut self, max_attempts: usize) -> (r: ServerAction)
        requires
            old(self).state is WaitingAuthRequest,
        ensures
            rejected_as(*old(self), *final(self), r, max_attempts, auth_of(old(self).state)),
            final(self).wf() == old(self).wf(),
    {
        let a = self.take_auth_request();
        self.reject_with(a, max_attempts)
    }

    fn accept(&mut self)
        ensures
            accepted(*old(self), *final(self)),
            final(self).wf() == old(self).wf(),
    {
        server_auth_request_success(&mut self.write);
        self.state = EncryptedState::Authenticated;
    }

    /// Reads USERAUTH_REQUEST. A service other than "ssh-connection" is an
    /// error. For "password", the handler is asked, unless the packet asks
    /// to change the password, which is rejected as a failure would be. For
    /// "publickey", the key must be parsed first. For
    /// "keyboard-interactive", the handler is asked with no response yet.
    /// Any other method is rejected.
    pub fn server_read_auth_request(&mut self, auth_user: &mut Vec<u8>, buf: &[u8], max_attempts: usize) -> (r: Result<ServerAction, Error>)
        requires
            old(self).state is WaitingAuthRequest,
        ensures
            final(self).wf() == old(self).wf(),
            state_rank(final(self).state) >= state_rank(old(self).state),
            same_frame(*old(self), *final(self)),
            auth_request_effect(*old(self), *final(self), *old(auth_user), *final(auth_user), buf@, r, max_attempts),
    {
        let (user, p1) = match read_string(buf, 1) {
            Some(x) => x,
            None => return Err(Error::MalformedPacket),
        };
        let (service, p2) = match read_string(buf, p1) {
            Some(x) => x,
            None => return Err(Error::MalformedPacket),
        };
        let (method, p3) = match read_string(buf, p2) {
            Some(x) => x,
            None => return Err(Error::MalformedPacket),
        };
        if !bytes_eq(service.as_slice(), ssh_connection_bytes().as_slice()) {
            return Err(Error::Inconsistent);
        }
        if bytes_eq(method.as_slice(), crate::auth::name_password_bytes().as_slice()) {
            *auth_user = user.clone();
            let (flag, p4) = match read_u8(buf, p3) {
                Some(x) => x,
                None => return Err(Error::MalformedPacket),
            };
            let (password, _) = match read_string(buf, p4) {
                Some(x) => x,
                None => return Err(Error::MalformedPacket),
            };
            if flag == 0 {
                Ok(ServerAction::AuthPassword { user, password })
            } else {
                auth_user.clear();
                let a = self.take_auth_request();
                let a = AuthRequest { methods: a.methods.without_password(), partial_success: false, ..a };
                Ok(self.reject_with(a, max_attempts))
            }
        } else if bytes_eq(method.as_slice(), crate::auth::name_publickey_bytes().as_slice()) {
            let (is_real, p4) = match read_u8(buf, p3) {
                Some(x) => x,
                None => return Err(Error::MalformedPacket),
            };
            let (algo, p5) = match read_string(buf, p4) {
                Some(x) => x,
                None => return Err(Error::MalformedPacket),
            };
            let (key, p6) = match read_string(buf, p5) {
                Some(x) => x,
                None => return Err(Error::MalformedPacket),
            };
            Ok(ServerAction::ParsePublicKey { user, algo, key, is_real: is_real != 0, pos: p6 })
        } else if bytes_eq(method.as_slice(), crate::auth::name_keyboard_interactive_bytes().as_slice()) {
            *auth_user = user.clone();
            let (_, p4) = match read_string(buf, p3) {
                Some(x) => x,
                None => return Err(Error::MalformedPacket),
            };
            let (submethods, _) = match read_string(buf, p4) {
                Some(x) => x,
                None => return Err(Error::MalformedPacket),
            };
            let a = self.take_auth_request();
            let sub2 = submethods.clone();
            self.state = EncryptedState::WaitingAuthRequest(
                AuthRequest { current: Some(CurrentRequest::KeyboardInteractive { submethods: sub2 }), ..a },
            );
            Ok(ServerAction::AuthKeyboardInteractive { user, submethods, response: None })
        } else {
            Ok(self.reject_current(max_attempts))
        }
    }

    /// The handler's answer on a password: on acceptance the user is
    /// authenticated; otherwise password leaves the methods offered, the
    /// user is forgotten, and the request is rejected.
    pub fn server_password_answered(&mut self, auth_user: &mut Vec<u8>, auth: &Auth, max_attempts: usize) -> (r: ServerAction)
        requires
            old(self).state is WaitingAuthRequest,
        ensures
            final(self).wf() == old(self).wf(),
            if auth is Accept {
                &&& r is Done
                &&& accepted(*old(self), *final(self))
                &&& *final(auth_user) == *old(auth_user)
            } else {
                &&& final(auth_user)@.len() == 0
                &&& rejected_as(*old(self), *final(self), r, max_attempts, AuthRequest {
                    methods: auth_of(old(self).state).methods.without_password_spec(),
                    partial_success: false,
                    ..auth_of(old(self).state)
                })
            },
    {
        if let Auth::Accept = auth {
            self.accept();
            ServerAction::Done
        } else {
            auth_user.clear();
            let a = self.take_auth_request();
            let a = AuthRequest { methods: a.methods.without_password(), partial_success: false, ..a };
            self.reject_with(a, max_attempts)
        }
    }

    /// Goes on with a public key request once its key was parsed or found
    /// unreadable (`key_ok`). An unreadable key is rejected. A key without
    /// signature goes to the handler. A signed request is checked at once
    /// where this key was already accepted for this user; goes to the
    /// handler first where no user has tried yet; and is rejected otherwise.
    pub fn server_public_key_parsed(
        &mut self,
        auth_user: &mut Vec<u8>,
        user: Vec<u8>,
        algo: Vec<u8>,
        key: Vec<u8>,
        is_real: bool,
        pos: usize,
        key_ok: bool,
        buf: &[u8],
        max_attempts: usize,
    ) -> (r: Result<ServerAction, Error>)
        requires
            old(self).state is WaitingAuthRequest,
            pos <= buf@.len(),
        ensures
            final(self).wf() == old(self).wf(),
            state_rank(final(self).state) >= state_rank(old(self).state),
            same_frame(*old(self), *final(self)),
            if !key_ok {
                &&& *final(auth_user) == *old(auth_user)
                &&& rejected_ok(*old(self), *final(self), r, max_attempts, auth_of(old(self).state))
            } else if !is_real {
                &&& final(auth_user)@ == user@
                &&& *final(self) == *old(self)
                &&& match r {
                    Ok(ServerAction::AuthPublicKeyProbe { user: u, algo: a, key: k }) => u@ == user@
                        && a@ == algo@ && k@ == key@,
                    _ => false,
                }
            } else {
                match parse_signature(buf@, pos as int) {
                    None => r == Err::<ServerAction, Error>(Error::MalformedPacket) && *final(self)
                        == *old(self) && *final(auth_user) == *old(auth_user),
                    Some(sig) => {
                        let data = signed_data(old(self).session_id@, buf@, pos as int);
                        let cur = auth_of(old(self).state).current;
                        if (cur matches Some(CurrentRequest::PublicKey { sent_pk_ok: true, .. }))
                            && user@ == old(auth_user)@ {
                            &&& *final(self) == *old(self)
                            &&& *final(auth_user) == *old(auth_user)
                            &&& match r {
                                Ok(ServerAction::CheckSignature { signed, signature }) => signed@ == data
                                    && signature@ == sig,
                                _ => false,
                            }
                        } else if old(auth_user)@.len() == 0 {
                            &&& *final(self) == *old(self)
                            &&& final(auth_user)@ == user@
                            &&& match r {
                                Ok(ServerAction::AuthPublicKeySigned { user: u, signed, signature }) =>
                                    u@ == user@ && signed@ == data && signature@ == sig,
                                _ => false,
                            }
                        } else {
                            &&& *final(auth_user) == *old(auth_user)
                            &&& rejected_ok(*old(self), *final(self), r, max_attempts, auth_of(old(self).state))
                        }
                    },
                }
            },
    {
        if !key_ok {
            return Ok(self.reject_current(max_attempts));
        }
        if !is_real {
            *auth_user = user.clone();
            return Ok(ServerAction::AuthPublicKeyProbe { user, algo, key });
        }
        let sent_pk_ok = match &self.state {
            EncryptedState::WaitingAuthRequest(a) => match &a.current {
                Some(CurrentRequest::PublicKey { sent_pk_ok, .. }) => *sent_pk_ok,
                _ => false,
            },
            _ => false,
        };
        let (blob, _) = match read_string(buf, pos) {
            Some(x) => x,
            None => return Err(Error::MalformedPacket),
        };
        let (_, q) = match read_string(blob.as_slice(), 0) {
            Some(x) => x,
            None => return Err(Error::MalformedPacket),
        };
        let (signature, _) = match read_string(blob.as_slice(), q) {
            Some(x) => x,
            None => return Err(Error::MalformedPacket),
        };
        let mut signed: Vec<u8> = Vec::new();
        push_string(&mut signed, self.session_id.as_slice());
        signed.extend_from_slice(&buf[0..pos]);
        assert(signed@ =~= signed_data(self.session_id@, buf@, pos as int));
        if sent_pk_ok && bytes_eq(user.as_slice(), auth_user.as_slice()) {
            Ok(ServerAction::CheckSignature { signed, signature })
        } else if auth_user.len() == 0 {
            *auth_user = user.clone();
            Ok(ServerAction::AuthPublicKeySigned { user, signed, signature })
        } else {
            Ok(self.reject_current(max_attempts))
        }
    }

    /// The handler's answer on a key offered without signature: on
    /// acceptance, USERAUTH_PK_OK is written and the key is remembered as
    /// accepted; otherwise the user is forgotten and the request rejected.
    pub fn server_probe_answered(&mut self, auth_user: &mut Vec<u8>, algo: Vec<u8>, key: Vec<u8>, auth: &Auth, max_attempts: usize) -> (r: ServerAction)
        requires
            old(self).state is WaitingAuthRequest,
        ensures
            final(self).wf() == old(self).wf(),
            state_rank(final(self).state) >= state_rank(old(self).state),
            same_frame(*old(self), *final(self)),
            if auth is Accept {
                &&& r is Done
                &&& *final(auth_user) == *old(auth_user)
                &&& final(self).written() == old(self).written() + framed(pk_ok_payload(algo@, key@))
                &&& final(self).state == EncryptedState::WaitingAuthRequest(AuthRequest {
                    current: Some(CurrentRequest::PublicKey { key, algo, sent_pk_ok: true }),
                    ..auth_of(old(self).state)
                })
            } else {
                &&& final(auth_user)@.len() == 0
                &&& rejected_as(*old(self), *final(self), r, max_attempts, AuthRequest {
                    partial_success: false,
                    ..auth_of(old(self).state)
                })
            },
    {
        if let Auth::Accept = auth {
            let mut p: Vec<u8> = vec![msg::USERAUTH_PK_OK];
            push_string(&mut p, algo.as_slice());
            push_string(&mut p, key.as_slice());
            assert(p@ =~= pk_ok_payload(algo@, key@));
            push_packet(&mut self.write, p.as_slice());
            let a = self.take_auth_request();
            self.state = EncryptedState::WaitingAuthRequest(
                AuthRequest { current: Some(CurrentRequest::PublicKey { key, algo, sent_pk_ok: true }), ..a },
            );
            ServerAction::Done
        } else {
            auth_user.clear();
            let a = self.take_auth_request();
            self.reject_with(AuthRequest { partial_success: false, ..a }, max_attempts)
        }
    }

    /// The handler's answer on a signed key that no probe preceded: on
    /// acceptance the signature is to be checked, otherwise the request is
    /// rejected.
    pub fn server_signed_key_answered(&mut self, signed: Vec<u8>, signature: Vec<u8>, auth: &Auth, max_attempts: usize) -> (r: ServerAction)
        requires
            old(self).state is WaitingAuthRequest,
        ensures
            final(self).wf() == old(self).wf(),
            same_frame(*old(self), *final(self)),
            if auth is Accept {
                &&& *final(self) == *old(self)
                &&& match r {
                    ServerAction::CheckSignature { signed: s, signature: g } => s@ == signed@ && g@
                        == signature@,
                    _ => false,
                }
            } else {
                &&& rejected_as(*old(self), *final(self), r, max_attempts, auth_of(old(self).state))
            },
    {
        if let Auth::Accept = auth {
            ServerAction::CheckSignature { signed, signature }
        } else {
            self.reject_current(max_attempts)
        }
    }

    /// The signature check's result: a valid signature authenticates the
    /// user, an invalid one is rejected.
    pub fn server_signature_checked(&mut self, valid: bool, max_attempts: usize) -> (r: ServerAction)
        requires
            old(self).state is WaitingAuthRequest,
        ensures
            final(self).wf() == old(self).wf(),
            same_frame(*old(self), *final(self)),
            if valid {
                r is Done && accepted(*old(self), *final(self))
            } else {
                rejected_as(*old(self), *final(self), r, max_attempts, auth_of(old(self).state))
            },
    {
        if valid {
            self.accept();
            ServerAction::Done
        } else {
            self.reject_current(max_attempts)
        }
    }

    /// Reads USERAUTH_INFO_RESPONSE: where a keyboard-interactive request is
    /// in progress, its responses go to the handler; otherwise the packet
    /// is rejected.
    pub fn read_userauth_info_response(&mut self, auth_user: &Vec<u8>, buf: &[u8], max_attempts: usize) -> (r: Result<ServerAction, Error>)
        requires
            old(self).state is WaitingAuthRequest,
        ensures
            final(self).wf() == old(self).wf(),
            same_frame(*old(self), *final(self)),
            info_response_effect(*old(self), *final(self), *auth_user, buf@, r, max_attempts),
    {
        let sub = match &self.state {
            EncryptedState::WaitingAuthRequest(a) => match &a.current {
                Some(CurrentRequest::KeyboardInteractive { submethods }) => Some(submethods.clone()),
                _ => None,
            },
            _ => None,
        };
        match sub {
            Some(submethods) => {
                let (n, p) = match read_u32(buf, 1) {
                    Some(x) => x,
                    None => return Err(Error::MalformedPacket),
                };
                let mut copy: Vec<u8> = Vec::new();
                copy.extend_from_slice(buf);
                assert(copy@ =~= buf@);
                Ok(ServerAction::AuthKeyboardInteractive {
                    user: auth_user.clone(),
                    submethods,
                    response: Some(Response { buf: copy, pos: p, n }),
                })
            },
            None => {
                Ok(self.reject_current(max_attempts))
            },
        }
    }

    /// The handler's answer in a keyboard-interactive exchange: acceptance
    /// authenticates the user, a rejection is rejected, and a partial
    /// answer writes the next questions.
    pub fn server_keyboard_interactive_answered(&mut self, auth: &Auth, max_attempts: usize) -> (r: ServerAction)
        requires
            old(self).state is WaitingAuthRequest,
            !(auth is UnsupportedMethod),
        ensures
            final(self).wf() == old(self).wf(),
            same_frame(*old(self), *final(self)),
            state_rank(final(self).state) >= state_rank(old(self).state),
            match auth {
                Auth::Accept => r is Done && accepted(*old(self), *final(self)),
                Auth::Reject => rejected_as(*old(self), *final(self), r, max_attempts, AuthRequest {
                    partial_success: false,
                    ..auth_of(old(self).state)
                }),
                Auth::Partial { name, instructions, prompts } => {
                    &&& r is Done
                    &&& final(self).state == old(self).state
                    &&& final(self).written() == old(self).written() + framed(
                        info_request_payload(encode_utf8(name@), encode_utf8(instructions@), prompts@),
                    )
                },
                Auth::UnsupportedMethod => false,
            },
    {
        let mut a = self.take_auth_request();
        let done = reply_userauth_info_response(&mut a, &mut self.write, auth);
        if done {
            self.state = EncryptedState::Authenticated;
            ServerAction::Done
        } else {
            let rejected = matches!(auth, Auth::Reject);
            let last = a.rejection_count >= max_attempts;
            self.state = EncryptedState::WaitingAuthRequest(a);
            if rejected && last {
                ServerAction::RejectedLast
            } else if rejected {
                ServerAction::Rejected
            } else {
                ServerAction::Done
            }
        }
    }
}

} // verus!
