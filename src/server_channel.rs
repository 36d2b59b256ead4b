//! The server's handling of channel traffic once the user is authenticated.
use crate::codec::{be32, framed, parse_string, parse_u32, parse_u8, push_packet, push_string, push_u32,
    read_string, read_u32, read_u8, ssh_string, u32_be};
use crate::msg;
use crate::names;
use crate::server::{bytes_eq, ServerAction};
use crate::session::{channel_removed, has_pending, pending_view, Pending, PendingView, data_received, find_index, has_channel, with_wants_reply, Channel, ChannelId, Encrypted, Error};
use vstd::prelude::*;

verus! {

/// The payload of CHANNEL_OPEN_CONFIRMATION.
pub open spec fn open_confirmation_payload(c: Channel, window: u32, max_packet: u32) -> Seq<u8> {
    seq![msg::CHANNEL_OPEN_CONFIRMATION] + u32_be(c.recipient_channel) + u32_be(c.sender_channel.0)
        + u32_be(window) + u32_be(max_packet)
}

/// The payload of CHANNEL_OPEN_FAILURE for an unknown channel type.
pub open spec fn open_failure_payload(recipient: u32) -> Seq<u8> {
    seq![msg::CHANNEL_OPEN_FAILURE] + u32_be(recipient) + u32_be(3) + ssh_string(
        names::unknown_channel_type(),
    ) + ssh_string(names::en())
}

/// The channel that an accepted CHANNEL_OPEN creates.
pub open spec fn opened_channel(
    id: ChannelId,
    sender: u32,
    window: u32,
    max_packet: u32,
    window_size: u32,
    maximum_packet_size: u32,
) -> Channel {
    Channel {
        recipient_channel: sender,
        sender_channel: id,
        recipient_window_size: window,
        sender_window_size: window_size,
        recipient_maximum_packet_size: max_packet,
        sender_maximum_packet_size: maximum_packet_size,
        confirmed: true,
        wants_reply: false,
    }
}

/// The type, sender channel, window and largest packet of CHANNEL_OPEN, and
/// the position after them.
pub open spec fn parse_channel_open(b: Seq<u8>) -> Option<(Seq<u8>, u32, u32, u32, int)> {
    match parse_string(b, 1) {
        Some((t, p1)) => match (parse_u32(b, p1), parse_u32(b, p1 + 4), parse_u32(b, p1 + 8)) {
            (Some((s, _)), Some((w, _)), Some((m, _))) => Some((t, s, w, m, p1 + 12)),
            _ => None,
        },
        None => None,
    }
}

/// The mode pairs of a pty request: five-byte entries of an opcode and a
/// big-endian argument, up to opcode 0 or the end; a cut entry is malformed.
pub open spec fn parse_modes(m: Seq<u8>) -> Option<Seq<(u8, u32)>>
    decreases m.len(),
{
    if m.len() == 0 || m[0] == 0 {
        Some(Seq::empty())
    } else if m.len() < 5 {
        None
    } else {
        match parse_modes(m.subrange(5, m.len() as int)) {
            Some(rest) => Some(seq![(m[0], be32(m.subrange(1, 5)) as u32)] + rest),
            None => None,
        }
    }
}

/// The payload of a reply to a global request.
pub open spec fn global_reply_payload(ok: bool) -> Seq<u8> {
    if ok {
        seq![msg::REQUEST_SUCCESS]
    } else {
        seq![msg::REQUEST_FAILURE]
    }
}

/// The channel, request name and want-reply byte of CHANNEL_REQUEST, and the
/// position after them.
pub open spec fn parse_request_head(b: Seq<u8>) -> Option<(u32, Seq<u8>, u8, int)> {
    match parse_u32(b, 1) {
        Some((c, p1)) => match parse_string(b, p1) {
            Some((n, p2)) => match parse_u8(b, p2) {
                Some((w, p3)) => Some((c, n, w, p3)),
                None => None,
            },
            None => None,
        },
        None => None,
    }
}

/// Four big-endian integers from `p` on.
pub open spec fn parse_four_u32(b: Seq<u8>, p: int) -> Option<(u32, u32, u32, u32, int)> {
    match (parse_u32(b, p), parse_u32(b, p + 4), parse_u32(b, p + 8), parse_u32(b, p + 12)) {
        (Some((a, _)), Some((c, _)), Some((d, _)), Some((e, q))) => Some((a, c, d, e, q)),
        _ => None,
    }
}

/// The body of a pty request: terminal, sizes and modes.
pub open spec fn parse_pty(b: Seq<u8>, p: int) -> Option<(Seq<u8>, u32, u32, u32, u32, Seq<(u8, u32)>)> {
    match parse_string(b, p) {
        Some((term, q)) => match parse_four_u32(b, q) {
            Some((cw, rh, pw, ph, q2)) => match parse_string(b, q2) {
                Some((m, _)) => match parse_modes(m) {
                    Some(modes) => Some((term, cw, rh, pw, ph, modes)),
                    None => None,
                },
                None => None,
            },
            None => None,
        },
        None => None,
    }
}

/// The body of an X11 request.
pub open spec fn parse_x11_req(b: Seq<u8>, p: int) -> Option<(bool, Seq<u8>, Seq<u8>, u32)> {
    match parse_u8(b, p) {
        Some((single, q)) => match parse_string(b, q) {
            Some((proto, q2)) => match parse_string(b, q2) {
                Some((cookie, q3)) => match parse_u32(b, q3) {
                    Some((screen, _)) => Some((single != 0, proto, cookie, screen)),
                    None => None,
                },
                None => None,
            },
            None => None,
        },
        None => None,
    }
}

/// Two strings from `p` on.
pub open spec fn parse_two_strings(b: Seq<u8>, p: int) -> Option<(Seq<u8>, Seq<u8>)> {
    match parse_string(b, p) {
        Some((x, q)) => match parse_string(b, q) {
            Some((y, _)) => Some((x, y)),
            None => None,
        },
        None => None,
    }
}

/// A string, then a big-endian integer, from `p` on.
pub open spec fn parse_string_u32(b: Seq<u8>, p: int) -> Option<(Seq<u8>, u32)> {
    match parse_string(b, p) {
        Some((x, q)) => match parse_u32(b, q) {
            Some((y, _)) => Some((x, y)),
            None => None,
        },
        None => None,
    }
}

/// The signal name of a signal request, after the byte that precedes it.
pub open spec fn parse_signal(b: Seq<u8>, p: int) -> Option<Seq<u8>> {
    match parse_u8(b, p) {
        Some((_, q)) => match parse_string(b, q) {
            Some((n, _)) => Some(n),
            None => None,
        },
        None => None,
    }
}

/// The channel, extended-data code and data of CHANNEL_DATA or
/// CHANNEL_EXTENDED_DATA.
pub open spec fn parse_data(b: Seq<u8>) -> Option<(u32, Option<u32>, Seq<u8>)> {
    match parse_u32(b, 1) {
        Some((c, p1)) => if b[0] == msg::CHANNEL_DATA {
            match parse_string(b, p1) {
                Some((d, _)) => Some((c, None, d)),
                None => None,
            }
        } else {
            match parse_u32(b, p1) {
                Some((code, p2)) => match parse_string(b, p2) {
                    Some((d, _)) => Some((c, Some(code), d)),
                    None => None,
                },
                None => None,
            }
        },
        None => None,
    }
}

/// What a channel request asks of the handler, and whether it was
/// understood and well formed.
pub open spec fn request_action_matches(r: Result<ServerAction, Error>, ch: ChannelId, name: Seq<u8>, b: Seq<u8>, p: int) -> bool {
    if name == names::pty_req() {
        match parse_pty(b, p) {
            Some((term, cw, rh, pw, ph, modes)) => match r {
                Ok(ServerAction::PtyRequest { channel, term: t, col_width, row_height, pix_width, pix_height, modes: m }) =>
                    channel == ch && t@ == term && col_width == cw && row_height == rh && pix_width == pw
                    && pix_height == ph && m@ == modes,
                _ => false,
            },
            None => r == Err::<ServerAction, Error>(Error::MalformedPacket),
        }
    } else if name == names::x11_req() {
        match parse_x11_req(b, p) {
            Some((single, proto, cookie, screen)) => match r {
                Ok(ServerAction::X11Request { channel, single_connection, x11_auth_protocol, x11_auth_cookie, x11_screen_number }) =>
                    channel == ch && single_connection == single && x11_auth_protocol@ == proto
                    && x11_auth_cookie@ == cookie && x11_screen_number == screen,
                _ => false,
            },
            None => r == Err::<ServerAction, Error>(Error::MalformedPacket),
        }
    } else if name == names::env() {
        match parse_two_strings(b, p) {
            Some((n, v)) => match r {
                Ok(ServerAction::EnvRequest { channel, variable_name, variable_value }) => channel == ch
                    && variable_name@ == n && variable_value@ == v,
                _ => false,
            },
            None => r == Err::<ServerAction, Error>(Error::MalformedPacket),
        }
    } else if name == names::shell() {
        r matches Ok(ServerAction::ShellRequest { channel }) && channel == ch
    } else if name == names::exec() {
        match parse_string(b, p) {
            Some((d, _)) => match r {
                Ok(ServerAction::ExecRequest { channel, data }) => channel == ch && data@ == d,
                _ => false,
            },
            None => r == Err::<ServerAction, Error>(Error::MalformedPacket),
        }
    } else if name == names::subsystem() {
        match parse_string(b, p) {
            Some((n, _)) => match r {
                Ok(ServerAction::SubsystemRequest { channel, name: x }) => channel == ch && x@ == n,
                _ => false,
            },
            None => r == Err::<ServerAction, Error>(Error::MalformedPacket),
        }
    } else if name == names::window_change() {
        match parse_four_u32(b, p) {
            Some((cw, rh, pw, ph, _)) => match r {
                Ok(ServerAction::WindowChangeRequest { channel, col_width, row_height, pix_width, pix_height }) =>
                    channel == ch && col_width == cw && row_height == rh && pix_width == pw && pix_height == ph,
                _ => false,
            },
            None => r == Err::<ServerAction, Error>(Error::MalformedPacket),
        }
    } else if name == names::signal() {
        match parse_signal(b, p) {
            Some(n) => match r {
                Ok(ServerAction::Signal { channel, signal_name }) => channel == ch && signal_name@ == n,
                _ => false,
            },
            None => r == Err::<ServerAction, Error>(Error::MalformedPacket),
        }
    } else {
        r matches Ok(ServerAction::Done)
    }
}

/// The request names that the server hands to the handler.
pub open spec fn known_request(name: Seq<u8>) -> bool {
    name == names::pty_req() || name == names::x11_req() || name == names::env() || name == names::shell()
        || name == names::exec() || name == names::subsystem() || name == names::window_change()
        || name == names::signal()
}

/// What reading CHANNEL_OPEN does: see `Encrypted::server_handle_channel_open`.
pub open spec fn channel_open_effect(e: Encrypted, f: Encrypted, window_size: u32, maximum_packet_size: u32, b: Seq<u8>, r: Result<ServerAction, Error>) -> bool {
    match parse_channel_open(b) {
        None => r == Err::<ServerAction, Error>(Error::MalformedPacket) && f == e,
        Some((t, sender, window, max_packet, p)) => {
            let id = ChannelId(f.last_channel_id);
            let c = opened_channel(id, sender, window, max_packet, window_size, maximum_packet_size);
            let confirmed = f.channels@ == e.channels@.push(c)
                && f.written() == e.written() + framed(
                open_confirmation_payload(c, window_size, maximum_packet_size),
            ) && !has_channel(e.channels@, id);
            if r == Err::<ServerAction, Error>(Error::NoChannelId) {
                e.channels@.len() >= 0x1_0000_0000
            } else if t == names::session() {
                confirmed && (r matches Ok(ServerAction::ChannelOpenSession { channel }) && channel == id)
            } else if t == names::x11() {
                &&& confirmed
                &&& match parse_string(b, p) {
                    Some((a, q)) => match parse_u32(b, q) {
                        Some((port, _)) => match r {
                            Ok(ServerAction::ChannelOpenX11 { channel, originator_address, originator_port }) =>
                                channel == id && originator_address@ == a && originator_port == port,
                            _ => false,
                        },
                        None => r == Err::<ServerAction, Error>(Error::MalformedPacket),
                    },
                    None => r == Err::<ServerAction, Error>(Error::MalformedPacket),
                }
            } else if t == names::direct_tcpip() {
                &&& confirmed
                &&& match parse_string(b, p) {
                    Some((h, q1)) => match parse_u32(b, q1) {
                        Some((hp, q2)) => match parse_string(b, q2) {
                            Some((a, q3)) => match parse_u32(b, q3) {
                                Some((ap, _)) => match r {
                                    Ok(ServerAction::ChannelOpenDirectTcpip {
                                        channel,
                                        host_to_connect,
                                        port_to_connect,
                                        originator_address,
                                        originator_port,
                                    }) => channel == id && host_to_connect@ == h && port_to_connect == hp
                                        && originator_address@ == a && originator_port == ap,
                                    _ => false,
                                },
                                None => r == Err::<ServerAction, Error>(Error::MalformedPacket),
                            },
                            None => r == Err::<ServerAction, Error>(Error::MalformedPacket),
                        },
                        None => r == Err::<ServerAction, Error>(Error::MalformedPacket),
                    },
                    None => r == Err::<ServerAction, Error>(Error::MalformedPacket),
                }
            } else {
                &&& r matches Ok(ServerAction::Done)
                &&& f.channels == e.channels
                &&& f.written() == e.written() + framed(open_failure_payload(sender))
            }
        },
    }
}

/// What reading CHANNEL_REQUEST does: see `Encrypted::server_read_channel_request`.
pub open spec fn channel_request_effect(e: Encrypted, f: Encrypted, b: Seq<u8>, r: Result<ServerAction, Error>) -> bool {
    match parse_request_head(b) {
        None => r == Err::<ServerAction, Error>(Error::MalformedPacket) && f == e,
        Some((c, name, w, p)) => {
            &&& f.channels@ == with_wants_reply(e.channels@, ChannelId(c), w != 0)
            &&& request_action_matches(r, ChannelId(c), name, b, p)
            &&& f.written() == if !known_request(name) && w != 0 {
                e.written() + framed(seq![msg::CHANNEL_FAILURE])
            } else {
                e.written()
            }
        },
    }
}

/// What reading GLOBAL_REQUEST does: see `Encrypted::server_read_global_request`.
pub open spec fn global_request_effect(e: Encrypted, f: Encrypted, w0: bool, w1: bool, b: Seq<u8>, r: Result<ServerAction, Error>) -> bool {
    match parse_string(b, 1) {
        Some((name, p1)) => match parse_u8(b, p1) {
            Some((w, p)) => {
                &&& w1 == (w != 0)
                &&& if name == names::tcpip_forward() || name == names::cancel_tcpip_forward() {
                    &&& f == e
                    &&& match parse_string_u32(b, p) {
                        Some((a, port)) => match r {
                            Ok(ServerAction::TcpipForward { address, port: x }) => name == names::tcpip_forward()
                                && address@ == a && x == port,
                            Ok(ServerAction::CancelTcpipForward { address, port: x }) => name
                                == names::cancel_tcpip_forward() && address@ == a && x == port,
                            _ => false,
                        },
                        None => r == Err::<ServerAction, Error>(Error::MalformedPacket),
                    }
                } else {
                    &&& r matches Ok(ServerAction::Done)
                    &&& f == (Encrypted { write: f.write, ..e })
                    &&& f.written() == if w != 0 {
                        e.written() + framed(global_reply_payload(false))
                    } else {
                        e.written()
                    }
                }
            },
            None => r == Err::<ServerAction, Error>(Error::MalformedPacket) && f == e && w1 == w0,
        },
        None => r == Err::<ServerAction, Error>(Error::MalformedPacket) && f == e && w1 == w0,
    }
}

/// What reading a packet does once the user is authenticated: see
/// `Encrypted::server_read_authenticated`.
pub open spec fn authenticated_effect(
    e: Encrypted,
    f: Encrypted,
    window_size: u32,
    maximum_packet_size: u32,
    w0: bool,
    w1: bool,
    b: Seq<u8>,
    r: Result<ServerAction, Error>,
) -> bool {
    let op = b[0];
    if op == msg::CHANNEL_OPEN {
        channel_open_effect(e, f, window_size, maximum_packet_size, b, r)
    } else if op == msg::CHANNEL_CLOSE {
        match parse_u32(b, 1) {
            Some((c, _)) => {
                &&& r matches Ok(ServerAction::ChannelClose { channel }) && channel == ChannelId(c)
                &&& f == (Encrypted { channels: f.channels, ..e })
                &&& !has_channel(f.channels@, ChannelId(c))
                &&& channel_removed(e.channels@, f.channels@, ChannelId(c))
            },
            None => r == Err::<ServerAction, Error>(Error::MalformedPacket) && f == e,
        }
    } else if op == msg::CHANNEL_EOF {
        match parse_u32(b, 1) {
            Some((c, _)) => (r matches Ok(ServerAction::ChannelEof { channel }) && channel == ChannelId(c))
                && f == e,
            None => r == Err::<ServerAction, Error>(Error::MalformedPacket) && f == e,
        }
    } else if op == msg::CHANNEL_DATA || op == msg::CHANNEL_EXTENDED_DATA {
        match parse_data(b) {
            Some((c, code, d)) => {
                &&& data_received(e, f, ChannelId(c), d.len() as int, window_size)
                &&& match (r, code) {
                    (Ok(ServerAction::Data { channel, data }), None) => channel == ChannelId(c) && data@ == d,
                    (Ok(ServerAction::ExtendedData { channel, code: x, data }), Some(y)) => channel
                        == ChannelId(c) && x == y && data@ == d,
                    _ => false,
                }
            },
            None => r == Err::<ServerAction, Error>(Error::MalformedPacket) && f == e,
        }
    } else if op == msg::CHANNEL_WINDOW_ADJUST {
        match (parse_u32(b, 1), parse_u32(b, 5)) {
            (Some((c, _)), Some((amount, _))) => match find_index(e.channels@, ChannelId(c)) {
                Some(i) => {
                    let ch = e.channels@[i];
                    if ch.recipient_window_size + amount <= u32::MAX {
                        let w = (ch.recipient_window_size + amount) as u32;
                        &&& f == (Encrypted { channels: f.channels, ..e })
                        &&& f.channels@ == e.channels@.update(i, Channel { recipient_window_size: w, ..ch })
                        &&& r matches Ok(ServerAction::WindowAdjusted { channel, new_window_size })
                            && channel == ChannelId(c) && new_window_size == w
                    } else {
                        r == Err::<ServerAction, Error>(Error::Inconsistent) && f == e
                    }
                },
                None => r == Err::<ServerAction, Error>(Error::WrongChannel) && f == e,
            },
            _ => r == Err::<ServerAction, Error>(Error::MalformedPacket) && f == e,
        }
    } else if op == msg::CHANNEL_REQUEST {
        channel_request_effect(e, f, b, r)
    } else if op == msg::GLOBAL_REQUEST {
        global_request_effect(e, f, w0, w1, b, r)
    } else {
        r matches Ok(ServerAction::Done) && f == e
    }
}

/// The payload of CHANNEL_DATA, or of CHANNEL_EXTENDED_DATA with `ext`.
pub open spec fn data_payload(recipient: u32, ext: Option<u32>, chunk: Seq<u8>) -> Seq<u8> {
    match ext {
        None => seq![msg::CHANNEL_DATA] + u32_be(recipient) + ssh_string(chunk),
        Some(code) => seq![msg::CHANNEL_EXTENDED_DATA] + u32_be(recipient) + u32_be(code) + ssh_string(chunk),
    }
}

/// The packets that carry `d`, cut into pieces of at most `max` bytes.
pub open spec fn data_packets(recipient: u32, ext: Option<u32>, d: Seq<u8>, max: nat) -> Seq<u8>
    recommends
        max > 0,
    decreases d.len(),
{
    if d.len() == 0 || max == 0 {
        Seq::empty()
    } else {
        let off = if d.len() < max { d.len() } else { max };
        framed(data_payload(recipient, ext, d.subrange(0, off as int))) + data_packets(
            recipient,
            ext,
            d.subrange(off as int, d.len() as int),
            max,
        )
    }
}

/// How many bytes of `len` the peer's window lets through: none where its
/// packets would hold none.
pub open spec fn sendable(c: Channel, len: int) -> int {
    if c.recipient_maximum_packet_size == 0 {
        0
    } else if len <= c.recipient_window_size {
        len
    } else {
        c.recipient_window_size as int
    }
}

/// The payload of a CHANNEL_REQUEST that this end sends, with no reply
/// wanted.
pub open spec fn outgoing_request_payload(recipient: u32, name: Seq<u8>, body: Seq<u8>) -> Seq<u8> {
    seq![msg::CHANNEL_REQUEST] + u32_be(recipient) + ssh_string(name) + seq![0u8] + body
}

/// `f` is `e` after writing, on channel `id` where it is open, the payload
/// that `payload` makes from the peer's channel number.
pub open spec fn wrote_on_channel(e: Encrypted, f: Encrypted, id: ChannelId, payload: spec_fn(u32) -> Seq<u8>, r: bool) -> bool {
    &&& f == (Encrypted { write: f.write, ..e })
    &&& match find_index(e.channels@, id) {
        Some(i) => r && f.written() == e.written() + framed(payload(e.channels@[i].recipient_channel)),
        None => !r && f.write == e.write,
    }
}

/// Where flushing the waiting data of one channel stands: the channel's
/// record, the bytes written, the entries kept, and whether an entry was
/// held back (after which the channel's later entries wait too).
pub type FlushState = (Channel, Seq<u8>, Seq<PendingView>, bool);

/// Flushing one waiting entry `e` for channel `id`.
pub open spec fn flush_step(id: ChannelId, st: FlushState, e: PendingView) -> FlushState {
    let (c, w, kept, blocked) = st;
    if e.0 != id || blocked {
        (c, w, kept.push(e), blocked)
    } else {
        let n = sendable(c, e.2.len() as int);
        let c2 = Channel { recipient_window_size: (c.recipient_window_size - n) as u32, ..c };
        let w2 = w + data_packets(c.recipient_channel, e.1, e.2.subrange(0, n), c.recipient_maximum_packet_size as nat);
        if n < e.2.len() {
            (c2, w2, kept.push((e.0, e.1, e.2.subrange(n, e.2.len() as int))), true)
        } else {
            (c2, w2, kept, false)
        }
    }
}

/// Flushing the entries `es` in order, from `st`.
pub open spec fn flush_run(id: ChannelId, st: FlushState, es: Seq<PendingView>) -> FlushState
    decreases es.len(),
{
    if es.len() == 0 {
        st
    } else {
        flush_step(id, flush_run(id, st, es.drop_last()), es.last())
    }
}

/// Reads four big-endian integers.
pub fn read_four_u32(b: &[u8], p: usize) -> (r: Option<(u32, u32, u32, u32, usize)>)
    ensures
        match (r, parse_four_u32(b@, p as int)) {
            (Some((a, c, d, e, q)), Some((a2, c2, d2, e2, q2))) => a == a2 && c == c2 && d == d2 && e == e2
                && q == q2,
            (None, None) => true,
            _ => false,
        },
{
    let (a, p1) = match read_u32(b, p) {
        Some(x) => x,
        None => return None,
    };
    let (c, p2) = match read_u32(b, p1) {
        Some(x) => x,
        None => return None,
    };
    let (d, p3) = match read_u32(b, p2) {
        Some(x) => x,
        None => return None,
    };
    let (e, q) = match read_u32(b, p3) {
        Some(x) => x,
        None => return None,
    };
    Some((a, c, d, e, q))
}

/// Reads the modes of a pty request.
pub fn read_modes(m: &[u8]) -> (r: Option<Vec<(u8, u32)>>)
    ensures
        match (r, parse_modes(m@)) {
            (Some(v), Some(s)) => v@ == s,
            (None, None) => true,
            _ => false,
        },
{
    let mut out: Vec<(u8, u32)> = Vec::new();
    let mut i: usize = 0;
    assert(m@.subrange(0, m@.len() as int) =~= m@);
    proof {
        match parse_modes(m@) {
            Some(t) => assert(out@ + t =~= t),
            None => {},
        }
    }
    while i < m.len() && m[i] != 0
        invariant
            i <= m@.len(),
            parse_modes(m@) == match parse_modes(m@.subrange(i as int, m@.len() as int)) {
                Some(t) => Some(out@ + t),
                None => None::<Seq<(u8, u32)>>,
            },
        decreases m@.len() - i,
    {
        let ghost rest = m@.subrange(i as int, m@.len() as int);
        if m.len() - i < 5 {
            assert(parse_modes(rest) == None::<Seq<(u8, u32)>>);
            return None;
        }
        let (x, _) = match read_u32(m, i + 1) {
            Some(v) => v,
            None => return None,
        };
        assert(rest.subrange(1, 5) =~= m@.subrange(i + 1, i + 5));
        assert(rest.subrange(5, rest.len() as int) =~= m@.subrange(i + 5, m@.len() as int));
        let ghost old_out = out@;
        out.push((m[i], x));
        proof {
            match parse_modes(m@.subrange(i + 5, m@.len() as int)) {
                Some(t) => {
                    assert(old_out + (seq![(rest[0], be32(rest.subrange(1, 5)) as u32)] + t) =~= out@ + t);
                },
                None => {},
            }
        }
        i = i + 5;
    }
    assert(parse_modes(m@.subrange(i as int, m@.len() as int)) == Some(Seq::<(u8, u32)>::empty()));
    assert(out@ + Seq::<(u8, u32)>::empty() =~= out@);
    Some(out)
}

/// Writes CHANNEL_OPEN_CONFIRMATION for `channel`, offering our window and
/// largest packet.
pub fn server_confirm_channel_open(
    write: &mut cryptovec::CryptoVec,
    channel: &Channel,
    window_size: u32,
    maximum_packet_size: u32,
)
    ensures
        crate::codec::crypto_bytes(*final(write)) == crate::codec::crypto_bytes(*old(write)) + framed(
            open_confirmation_payload(*channel, window_size, maximum_packet_size),
        ),
{
    let mut p: Vec<u8> = vec![msg::CHANNEL_OPEN_CONFIRMATION];
    push_u32(&mut p, channel.recipient_channel);
    push_u32(&mut p, channel.sender_channel.0);
    push_u32(&mut p, window_size);
    push_u32(&mut p, maximum_packet_size);
    assert(p@ =~= open_confirmation_payload(*channel, window_size, maximum_packet_size));
    push_packet(write, p.as_slice());
}

impl Encrypted {
    /// Writes CHANNEL_OPEN_CONFIRMATION and adds the channel to the table.
    pub fn confirm_channel_open(&mut self, channel: Channel, window_size: u32, maximum_packet_size: u32)
        requires
            old(self).wf(),
            !has_channel(old(self).channels@, channel.sender_channel),
        ensures
            final(self).wf(),
            final(self).channels@ == old(self).channels@.push(channel),
            final(self).written() == old(self).written() + framed(
                open_confirmation_payload(channel, window_size, maximum_packet_size),
            ),
            final(self).state == old(self).state,
            final(self).session_id == old(self).session_id,
            final(self).exchange == old(self).exchange,
            final(self).last_channel_id == old(self).last_channel_id,
    {
        server_confirm_channel_open(&mut self.write, &channel, window_size, maximum_packet_size);
        self.insert_channel(channel);
    }

    /// Reads CHANNEL_OPEN. A session, X11 or direct TCP/IP channel gets a
    /// fresh local id, is confirmed and added, and goes to the handler; an
    /// unknown type is refused with reason 3 and is not added.
    pub fn server_handle_channel_open(&mut self, window_size: u32, maximum_packet_size: u32, buf: &[u8]) -> (r: Result<ServerAction, Error>)
        requires
            old(self).wf(),
        ensures
            final(self).wf(),
            final(self).state == old(self).state,
            final(self).session_id == old(self).session_id,
            final(self).exchange == old(self).exchange,
            channel_open_effect(*old(self), *final(self), window_size, maximum_packet_size, buf@, r),
    {
        let (typ, p1) = match read_string(buf, 1) {
            Some(x) => x,
            None => return Err(Error::MalformedPacket),
        };
        let (sender, p2) = match read_u32(buf, p1) {
            Some(x) => x,
            None => return Err(Error::MalformedPacket),
        };
        let (window, p3) = match read_u32(buf, p2) {
            Some(x) => x,
            None => return Err(Error::MalformedPacket),
        };
        let (max_packet, p) = match read_u32(buf, p3) {
            Some(x) => x,
            None => return Err(Error::MalformedPacket),
        };
        let id = match self.new_channel_id() {
            Some(id) => id,
            None => return Err(Error::NoChannelId),
        };
        let channel = Channel {
            recipient_channel: sender,
            sender_channel: id,
            recipient_window_size: window,
            sender_window_size: window_size,
            recipient_maximum_packet_size: max_packet,
            sender_maximum_packet_size: maximum_packet_size,
            confirmed: true,
            wants_reply: false,
        };
        if bytes_eq(typ.as_slice(), names::session_bytes().as_slice()) {
            self.confirm_channel_open(channel, window_size, maximum_packet_size);
            Ok(ServerAction::ChannelOpenSession { channel: id })
        } else if bytes_eq(typ.as_slice(), names::x11_bytes().as_slice()) {
            self.confirm_channel_open(channel, window_size, maximum_packet_size);
            let (a, q) = match read_string(buf, p) {
                Some(x) => x,
                None => return Err(Error::MalformedPacket),
            };
            let (b, _) = match read_u32(buf, q) {
                Some(x) => x,
                None => return Err(Error::MalformedPacket),
            };
            Ok(ServerAction::ChannelOpenX11 { channel: id, originator_address: a, originator_port: b })
        } else if bytes_eq(typ.as_slice(), names::direct_tcpip_bytes().as_slice()) {
            self.confirm_channel_open(channel, window_size, maximum_packet_size);
            let (h, q1) = match read_string(buf, p) {
                Some(x) => x,
                None => return Err(Error::MalformedPacket),
            };
            let (hp, q2) = match read_u32(buf, q1) {
                Some(x) => x,
                None => return Err(Error::MalformedPacket),
            };
            let (a, q3) = match read_string(buf, q2) {
                Some(x) => x,
                None => return Err(Error::MalformedPacket),
            };
            let (ap, _) = match read_u32(buf, q3) {
                Some(x) => x,
                None => return Err(Error::MalformedPacket),
            };
            Ok(ServerAction::ChannelOpenDirectTcpip {
                channel: id,
                host_to_connect: h,
                port_to_connect: hp,
                originator_address: a,
                originator_port: ap,
            })
        } else {
            let mut f: Vec<u8> = vec![msg::CHANNEL_OPEN_FAILURE];
            push_u32(&mut f, sender);
            push_u32(&mut f, 3);
            push_string(&mut f, names::unknown_channel_type_bytes().as_slice());
            push_string(&mut f, names::en_bytes().as_slice());
            assert(f@ =~= open_failure_payload(sender));
            push_packet(&mut self.write, f.as_slice());
            Ok(ServerAction::Done)
        }
    }

    /// Writes the answer to a global request: REQUEST_SUCCESS or
    /// REQUEST_FAILURE.
    pub fn server_global_reply(&mut self, ok: bool)
        ensures
            *final(self) == (Encrypted { write: final(self).write, ..*old(self) }),
            final(self).written() == old(self).written() + framed(global_reply_payload(ok)),
    {
        let p: Vec<u8> = if ok {
            vec![msg::REQUEST_SUCCESS]
        } else {
            vec![msg::REQUEST_FAILURE]
        };
        assert(p@ =~= global_reply_payload(ok));
        push_packet(&mut self.write, p.as_slice());
    }

    /// Reads CHANNEL_REQUEST: records whether a reply is wanted, and hands a
    /// known request to the handler. An unknown request is answered with
    /// CHANNEL_FAILURE where a reply is wanted, and ignored otherwise.
    pub fn server_read_channel_request(&mut self, buf: &[u8]) -> (r: Result<ServerAction, Error>)
        requires
            old(self).wf(),
        ensures
            final(self).wf(),
            *final(self) == (Encrypted { channels: final(self).channels, write: final(self).write, ..*old(self) }),
            channel_request_effect(*old(self), *final(self), buf@, r),
    {
        let (c, p1) = match read_u32(buf, 1) {
            Some(x) => x,
            None => return Err(Error::MalformedPacket),
        };
        let (name, p2) = match read_string(buf, p1) {
            Some(x) => x,
            None => return Err(Error::MalformedPacket),
        };
        let (w, p) = match read_u8(buf, p2) {
            Some(x) => x,
            None => return Err(Error::MalformedPacket),
        };
        let ch = ChannelId(c);
        self.set_wants_reply(ch, w != 0);
        let n = name.as_slice();
        if bytes_eq(n, names::pty_req_bytes().as_slice()) {
            let (term, q) = match read_string(buf, p) {
                Some(x) => x,
                None => return Err(Error::MalformedPacket),
            };
            let (cw, rh, pw, ph, q2) = match read_four_u32(buf, q) {
                Some(x) => x,
                None => return Err(Error::MalformedPacket),
            };
            let (m, _) = match read_string(buf, q2) {
                Some(x) => x,
                None => return Err(Error::MalformedPacket),
            };
            let modes = match read_modes(m.as_slice()) {
                Some(x) => x,
                None => return Err(Error::MalformedPacket),
            };
            Ok(ServerAction::PtyRequest {
                channel: ch,
                term,
                col_width: cw,
                row_height: rh,
                pix_width: pw,
                pix_height: ph,
                modes,
            })
        } else if bytes_eq(n, names::x11_req_bytes().as_slice()) {
            let (single, q) = match read_u8(buf, p) {
                Some(x) => x,
                None => return Err(Error::MalformedPacket),
            };
            let (proto, q2) = match read_string(buf, q) {
                Some(x) => x,
                None => return Err(Error::MalformedPacket),
            };
            let (cookie, q3) = match read_string(buf, q2) {
                Some(x) => x,
                None => return Err(Error::MalformedPacket),
            };
            let (screen, _) = match read_u32(buf, q3) {
                Some(x) => x,
                None => return Err(Error::MalformedPacket),
            };
            Ok(ServerAction::X11Request {
                channel: ch,
                single_connection: single != 0,
                x11_auth_protocol: proto,
                x11_auth_cookie: cookie,
                x11_screen_number: screen,
            })
        } else if bytes_eq(n, names::env_bytes().as_slice()) {
            let (var, q) = match read_string(buf, p) {
                Some(x) => x,
                None => return Err(Error::MalformedPacket),
            };
            let (val, _) = match read_string(buf, q) {
                Some(x) => x,
                None => return Err(Error::MalformedPacket),
            };
            Ok(ServerAction::EnvRequest { channel: ch, variable_name: var, variable_value: val })
        } else if bytes_eq(n, names::shell_bytes().as_slice()) {
            Ok(ServerAction::ShellRequest { channel: ch })
        } else if bytes_eq(n, names::exec_bytes().as_slice()) {
            let (d, _) = match read_string(buf, p) {
                Some(x) => x,
                None => return Err(Error::MalformedPacket),
            };
            Ok(ServerAction::ExecRequest { channel: ch, data: d })
        } else if bytes_eq(n, names::subsystem_bytes().as_slice()) {
            let (x, _) = match read_string(buf, p) {
                Some(x) => x,
                None => return Err(Error::MalformedPacket),
            };
            Ok(ServerAction::SubsystemRequest { channel: ch, name: x })
        } else if bytes_eq(n, names::window_change_bytes().as_slice()) {
            let (cw, rh, pw, ph, _) = match read_four_u32(buf, p) {
                Some(x) => x,
                None => return Err(Error::MalformedPacket),
            };
            Ok(ServerAction::WindowChangeRequest {
                channel: ch,
                col_width: cw,
                row_height: rh,
                pix_width: pw,
                pix_height: ph,
            })
        } else if bytes_eq(n, names::signal_bytes().as_slice()) {
            let (_, q) = match read_u8(buf, p) {
                Some(x) => x,
                None => return Err(Error::MalformedPacket),
            };
            let (x, _) = match read_string(buf, q) {
                Some(x) => x,
                None => return Err(Error::MalformedPacket),
            };
            Ok(ServerAction::Signal { channel: ch, signal_name: x })
        } else {
            if w != 0 {
                let f: Vec<u8> = vec![msg::CHANNEL_FAILURE];
                assert(f@ =~= seq![msg::CHANNEL_FAILURE]);
                push_packet(&mut self.write, f.as_slice());
            }
            Ok(ServerAction::Done)
        }
    }

    /// Reads GLOBAL_REQUEST: records whether a reply is wanted, and hands a
    /// forwarding or its cancellation to the handler. Another request is
    /// answered with REQUEST_FAILURE where a reply is wanted.
    pub fn server_read_global_request(&mut self, wants_reply: &mut bool, buf: &[u8]) -> (r: Result<ServerAction, Error>)
        ensures
            global_request_effect(*old(self), *final(self), *old(wants_reply), *final(wants_reply), buf@, r),
    {
        let (name, p1) = match read_string(buf, 1) {
            Some(x) => x,
            None => return Err(Error::MalformedPacket),
        };
        let (w, p) = match read_u8(buf, p1) {
            Some(x) => x,
            None => return Err(Error::MalformedPacket),
        };
        *wants_reply = w != 0;
        let n = name.as_slice();
        if bytes_eq(n, names::tcpip_forward_bytes().as_slice()) {
            let (a, q) = match read_string(buf, p) {
                Some(x) => x,
                None => return Err(Error::MalformedPacket),
            };
            let (port, _) = match read_u32(buf, q) {
                Some(x) => x,
                None => return Err(Error::MalformedPacket),
            };
            Ok(ServerAction::TcpipForward { address: a, port })
        } else if bytes_eq(n, names::cancel_tcpip_forward_bytes().as_slice()) {
            let (a, q) = match read_string(buf, p) {
                Some(x) => x,
                None => return Err(Error::MalformedPacket),
            };
            let (port, _) = match read_u32(buf, q) {
                Some(x) => x,
                None => return Err(Error::MalformedPacket),
            };
            Ok(ServerAction::CancelTcpipForward { address: a, port })
        } else {
            if w != 0 {
                self.server_global_reply(false);
            }
            Ok(ServerAction::Done)
        }
    }

    /// Reads a packet once the user is authenticated, and says what the
    /// handler is to do with it. Packets of other kinds are ignored.
    pub fn server_read_authenticated(
        &mut self,
        window_size: u32,
        maximum_packet_size: u32,
        wants_reply: &mut bool,
        buf: &[u8],
    ) -> (r: Result<ServerAction, Error>)
        requires
            old(self).wf(),
            buf@.len() >= 1,
        ensures
            final(self).wf(),
            final(self).state == old(self).state,
            final(self).session_id == old(self).session_id,
            final(self).exchange == old(self).exchange,
            buf@[0] != msg::GLOBAL_REQUEST ==> *final(wants_reply) == *old(wants_reply),
            authenticated_effect(*old(self), *final(self), window_size, maximum_packet_size, *old(wants_reply), *final(wants_reply), buf@, r),
    {
        let op = buf[0];
        if op == msg::CHANNEL_OPEN {
            self.server_handle_channel_open(window_size, maximum_packet_size, buf)
        } else if op == msg::CHANNEL_CLOSE {
            let (c, _) = match read_u32(buf, 1) {
                Some(x) => x,
                None => return Err(Error::MalformedPacket),
            };
            self.remove_channel(ChannelId(c));
            Ok(ServerAction::ChannelClose { channel: ChannelId(c) })
        } else if op == msg::CHANNEL_EOF {
            let (c, _) = match read_u32(buf, 1) {
                Some(x) => x,
                None => return Err(Error::MalformedPacket),
            };
            Ok(ServerAction::ChannelEof { channel: ChannelId(c) })
        } else if op == msg::CHANNEL_DATA || op == msg::CHANNEL_EXTENDED_DATA {
            let (c, p1) = match read_u32(buf, 1) {
                Some(x) => x,
                None => return Err(Error::MalformedPacket),
            };
            let (code, p2) = if op == msg::CHANNEL_DATA {
                (None, p1)
            } else {
                match read_u32(buf, p1) {
                    Some((x, q)) => (Some(x), q),
                    None => return Err(Error::MalformedPacket),
                }
            };
            let (data, _) = match read_string(buf, p2) {
                Some(x) => x,
                None => return Err(Error::MalformedPacket),
            };
            self.adjust_window_size(ChannelId(c), data.len(), window_size);
            match code {
                None => Ok(ServerAction::Data { channel: ChannelId(c), data }),
                Some(x) => Ok(ServerAction::ExtendedData { channel: ChannelId(c), code: x, data }),
            }
        } else if op == msg::CHANNEL_WINDOW_ADJUST {
            let (c, p1) = match read_u32(buf, 1) {
                Some(x) => x,
                None => return Err(Error::MalformedPacket),
            };
            let (amount, _) = match read_u32(buf, p1) {
                Some(x) => x,
                None => return Err(Error::MalformedPacket),
            };
            let w = self.window_adjusted(ChannelId(c), amount)?;
            Ok(ServerAction::WindowAdjusted { channel: ChannelId(c), new_window_size: w })
        } else if op == msg::CHANNEL_REQUEST {
            self.server_read_channel_request(buf)
        } else if op == msg::GLOBAL_REQUEST {
            self.server_read_global_request(wants_reply, buf)
        } else {
            Ok(ServerAction::Done)
        }
    }

    /// Sends data on channel `id`, as much as the peer's window allows, in
    /// packets no larger than the peer accepts, and takes it from the
    /// window. Returns how many bytes went out; none on a channel that is
    /// not open.
    pub fn data(&mut self, id: ChannelId, ext: Option<u32>, d: &[u8]) -> (r: usize)
        requires
            old(self).wf(),
        ensures
            final(self).wf(),
            *final(self) == (Encrypted { channels: final(self).channels, write: final(self).write, ..*old(self) }),
            match find_index(old(self).channels@, id) {
                Some(i) => {
                    let c = old(self).channels@[i];
                    let n = sendable(c, d@.len() as int);
                    &&& r == n
                    &&& final(self).channels@ == old(self).channels@.update(
                        i,
                        Channel { recipient_window_size: (c.recipient_window_size - n) as u32, ..c },
                    )
                    &&& final(self).written() == old(self).written() + data_packets(
                        c.recipient_channel,
                        ext,
                        d@.subrange(0, n),
                        c.recipient_maximum_packet_size as nat,
                    )
                },
                None => r == 0 && *final(self) == *old(self),
            },
    {
        let i = match self.find_channel(id) {
            Some(i) => i,
            None => {
                proof {
                    self.lemma_find_spec_none(id);
                }
                return 0;
            },
        };
        proof {
            self.lemma_find_spec(id, i as int);
        }
        let mut c = self.channels[i];
        let max = c.recipient_maximum_packet_size as usize;
        if max == 0 {
            proof {
                assert(d@.subrange(0, 0) =~= Seq::<u8>::empty());
                assert(self.channels@.update(i as int, c) =~= self.channels@);
                assert(crate::codec::crypto_bytes(self.write) =~= crate::codec::crypto_bytes(self.write) + Seq::<u8>::empty());
            }
            return 0;
        }
        let n: usize = if d.len() <= c.recipient_window_size as usize {
            d.len()
        } else {
            c.recipient_window_size as usize
        };
        let ghost all = d@.subrange(0, n as int);
        let ghost target = self.written() + data_packets(c.recipient_channel, ext, all, max as nat);
        let mut sent: usize = 0;
        assert(all.subrange(0, n as int) =~= all);
        while sent < n
            invariant
                n <= d@.len(),
                max > 0,
                max == c.recipient_maximum_packet_size,
                sent <= n,
                all == d@.subrange(0, n as int),
                target == self.written() + data_packets(
                    c.recipient_channel,
                    ext,
                    all.subrange(sent as int, n as int),
                    max as nat,
                ),
                self.channels == old(self).channels,
                *self == (Encrypted { write: self.write, ..*old(self) }),
            decreases n - sent,
        {
            let off: usize = if n - sent < max { n - sent } else { max };
            let ghost rest = all.subrange(sent as int, n as int);
            let mut p: Vec<u8> = Vec::new();
            match ext {
                None => p.push(msg::CHANNEL_DATA),
                Some(_) => p.push(msg::CHANNEL_EXTENDED_DATA),
            }
            push_u32(&mut p, c.recipient_channel);
            match ext {
                Some(code) => push_u32(&mut p, code),
                None => {},
            }
            push_string(&mut p, &d[sent..sent + off]);
            proof {
                assert(rest.subrange(0, off as int) =~= d@.subrange(sent as int, sent + off));
                assert(rest.subrange(off as int, rest.len() as int) =~= all.subrange(sent + off, n as int));
                match ext {
                    None => assert(p@ =~= data_payload(c.recipient_channel, ext, d@.subrange(sent as int, sent + off))),
                    Some(code) => assert(p@ =~= data_payload(c.recipient_channel, ext, d@.subrange(sent as int, sent + off))),
                }
            }
            let ghost before = self.written();
            push_packet(&mut self.write, p.as_slice());
            proof {
                assert(before + data_packets(c.recipient_channel, ext, rest, max as nat) =~= self.written()
                    + data_packets(c.recipient_channel, ext, all.subrange(sent + off, n as int), max as nat));
            }
            sent = sent + off;
        }
        proof {
            assert(all.subrange(n as int, n as int) =~= Seq::<u8>::empty());
            assert(target =~= self.written());
        }
        c.recipient_window_size = c.recipient_window_size - n as u32;
        self.set_channel(i, c);
        n
    }

    /// The peer's number for channel `id`, if it is open.
    fn recipient_of(&self, id: ChannelId) -> (r: Option<u32>)
        requires
            self.wf(),
        ensures
            match find_index(self.channels@, id) {
                Some(i) => r == Some(self.channels@[i].recipient_channel),
                None => r is None,
            },
    {
        match self.find_channel(id) {
            Some(i) => {
                proof {
                    self.lemma_find_spec(id, i as int);
                }
                Some(self.channels[i].recipient_channel)
            },
            None => None,
        }
    }

    /// Sends CHANNEL_EOF on channel `id`, where it is open.
    pub fn eof(&mut self, id: ChannelId) -> (r: bool)
        requires
            old(self).wf(),
        ensures
            wrote_on_channel(*old(self), *final(self), id, |x: u32| seq![msg::CHANNEL_EOF] + u32_be(x), r),
    {
        match self.recipient_of(id) {
            Some(x) => {
                let mut p: Vec<u8> = vec![msg::CHANNEL_EOF];
                push_u32(&mut p, x);
                assert(p@ =~= seq![msg::CHANNEL_EOF] + u32_be(x));
                push_packet(&mut self.write, p.as_slice());
                true
            },
            None => false,
        }
    }

    fn request_out(&mut self, id: ChannelId, name: &[u8], body: &[u8]) -> (r: bool)
        requires
            old(self).wf(),
        ensures
            wrote_on_channel(*old(self), *final(self), id, |x: u32| outgoing_request_payload(x, name@, body@), r),
    {
        match self.recipient_of(id) {
            Some(x) => {
                let mut p: Vec<u8> = vec![msg::CHANNEL_REQUEST];
                push_u32(&mut p, x);
                push_string(&mut p, name);
                p.push(0u8);
                p.extend_from_slice(body);
                assert(p@ =~= outgoing_request_payload(x, name@, body@));
                push_packet(&mut self.write, p.as_slice());
                true
            },
            None => false,
        }
    }

    /// Tells the client, on channel `id`, the exit status of its command.
    pub fn exit_status_request(&mut self, id: ChannelId, exit_status: u32) -> (r: bool)
        requires
            old(self).wf(),
        ensures
            wrote_on_channel(*old(self), *final(self), id, |x: u32| outgoing_request_payload(x, names::exit_status(), u32_be(exit_status)), r),
    {
        let mut body: Vec<u8> = Vec::new();
        push_u32(&mut body, exit_status);
        assert(body@ =~= u32_be(exit_status));
        self.request_out(id, names::exit_status_bytes().as_slice(), body.as_slice())
    }

    /// Tells the client, on channel `id`, whether it may do flow control.
    pub fn xon_xoff_request(&mut self, id: ChannelId, client_can_do: bool) -> (r: bool)
        requires
            old(self).wf(),
        ensures
            wrote_on_channel(*old(self), *final(self), id, |x: u32| outgoing_request_payload(x, names::xon_xoff(), seq![crate::codec::bool_byte(client_can_do)]), r),
    {
        let body: Vec<u8> = vec![if client_can_do { 1u8 } else { 0u8 }];
        assert(body@ =~= seq![crate::codec::bool_byte(client_can_do)]);
        self.request_out(id, names::xon_xoff_bytes().as_slice(), body.as_slice())
    }

    /// Tells the client, on channel `id`, the signal that ended its command.
    pub fn exit_signal_request(
        &mut self,
        id: ChannelId,
        signal_name: &[u8],
        core_dumped: bool,
        error_message: &[u8],
        lang_tag: &[u8],
    ) -> (r: bool)
        requires
            old(self).wf(),
        ensures
            wrote_on_channel(*old(self), *final(self), id, |x: u32| outgoing_request_payload(
                x,
                names::exit_signal(),
                ssh_string(signal_name@) + seq![crate::codec::bool_byte(core_dumped)] + ssh_string(error_message@)
                    + ssh_string(lang_tag@),
            ), r),
    {
        let mut body: Vec<u8> = Vec::new();
        push_string(&mut body, signal_name);
        body.push(if core_dumped { 1u8 } else { 0u8 });
        push_string(&mut body, error_message);
        push_string(&mut body, lang_tag);
        assert(body@ =~= ssh_string(signal_name@) + seq![crate::codec::bool_byte(core_dumped)] + ssh_string(error_message@)
            + ssh_string(lang_tag@));
        self.request_out(id, names::exit_signal_bytes().as_slice(), body.as_slice())
    }

    /// Whether some data waits on channel `id`.
    fn pending_on(&self, id: ChannelId) -> (r: bool)
        ensures
            r == has_pending(pending_view(self.pending@), id),
    {
        let mut k: usize = 0;
        while k < self.pending.len()
            invariant
                k <= self.pending@.len(),
                forall|j: int| 0 <= j < k ==> self.pending@[j].channel != id,
            decreases self.pending@.len() - k,
        {
            if self.pending[k].channel.0 == id.0 {
                assert(pending_view(self.pending@)[k as int].0 == id);
                return true;
            }
            k = k + 1;
        }
        assert forall|j: int| 0 <= j < pending_view(self.pending@).len() implies (#[trigger] pending_view(
            self.pending@,
        )[j]).0 != id by {
            assert(pending_view(self.pending@)[j].0 == self.pending@[j].channel);
        }
        false
    }

    /// Sends data that the application hands over for channel `id`. Where
    /// earlier data still waits on the channel, this waits behind it;
    /// otherwise as much goes out as the peer's window allows, and the rest
    /// waits. Data for a channel that is not open is dropped. Returns how
    /// many bytes went out.
    pub fn send_data(&mut self, id: ChannelId, ext: Option<u32>, d: &[u8]) -> (r: usize)
        requires
            old(self).wf(),
        ensures
            final(self).wf(),
            *final(self) == (Encrypted {
                channels: final(self).channels,
                write: final(self).write,
                pending: final(self).pending,
                ..*old(self)
            }),
            if has_pending(pending_view(old(self).pending@), id) {
                &&& r == 0
                &&& final(self).channels == old(self).channels
                &&& final(self).write == old(self).write
                &&& pending_view(final(self).pending@) == pending_view(old(self).pending@).push((id, ext, d@))
            } else {
                match find_index(old(self).channels@, id) {
                    Some(i) => {
                        let c = old(self).channels@[i];
                        let n = sendable(c, d@.len() as int);
                        &&& r == n
                        &&& final(self).channels@ == old(self).channels@.update(
                            i,
                            Channel { recipient_window_size: (c.recipient_window_size - n) as u32, ..c },
                        )
                        &&& final(self).written() == old(self).written() + data_packets(
                            c.recipient_channel,
                            ext,
                            d@.subrange(0, n),
                            c.recipient_maximum_packet_size as nat,
                        )
                        &&& pending_view(final(self).pending@) == if n < d@.len() {
                            pending_view(old(self).pending@).push((id, ext, d@.subrange(n, d@.len() as int)))
                        } else {
                            pending_view(old(self).pending@)
                        }
                    },
                    None => r == 0 && *final(self) == *old(self),
                }
            },
    {
        if self.pending_on(id) {
            let mut v: Vec<u8> = Vec::new();
            v.extend_from_slice(d);
            assert(v@ =~= d@);
            let ghost before = self.pending@;
            self.pending.push(Pending { channel: id, ext, data: v });
            assert(pending_view(self.pending@) =~= pending_view(before).push((id, ext, d@)));
            return 0;
        }
        if self.find_channel(id).is_none() {
            proof {
                self.lemma_find_spec_none(id);
            }
            return 0;
        }
        let n = self.data(id, ext, d);
        if n < d.len() {
            let mut v: Vec<u8> = Vec::new();
            v.extend_from_slice(&d[n..d.len()]);
            assert(v@ =~= d@.subrange(n as int, d@.len() as int));
            let ghost before = self.pending@;
            self.pending.push(Pending { channel: id, ext, data: v });
            assert(pending_view(self.pending@) =~= pending_view(before).push(
                (id, ext, d@.subrange(n as int, d@.len() as int)),
            ));
        }
        n
    }

    /// Sends what waits on channel `id`, in order, as far as the peer's
    /// window now allows; the first entry that does not go out whole keeps
    /// its rest, and the channel's later entries keep waiting behind it.
    /// Nothing happens for a channel that is not open.
    pub fn flush_pending(&mut self, id: ChannelId)
        requires
            old(self).wf(),
        ensures
            final(self).wf(),
            *final(self) == (Encrypted {
                channels: final(self).channels,
                write: final(self).write,
                pending: final(self).pending,
                ..*old(self)
            }),
            match find_index(old(self).channels@, id) {
                Some(i) => {
                    let st = flush_run(
                        id,
                        (old(self).channels@[i], Seq::empty(), Seq::empty(), false),
                        pending_view(old(self).pending@),
                    );
                    &&& final(self).channels@ == old(self).channels@.update(i, st.0)
                    &&& final(self).written() == old(self).written() + st.1
                    &&& pending_view(final(self).pending@) == st.2
                },
                None => *final(self) == *old(self),
            },
    {
        let idx = match self.find_channel(id) {
            Some(i) => i,
            None => {
                proof {
                    self.lemma_find_spec_none(id);
                }
                return;
            },
        };
        proof {
            self.lemma_find_spec(id, idx as int);
        }
        let ghost c0 = self.channels@[idx as int];
        let ghost es = pending_view(self.pending@);
        let ghost w0 = self.written();
        let ghost ch0 = self.channels@;
        let mut entries: Vec<Pending> = Vec::new();
        std::mem::swap(&mut entries, &mut self.pending);
        let mut out: Vec<Pending> = Vec::new();
        let mut blocked = false;
        let mut k: usize = 0;
        assert(es.take(0) =~= Seq::<PendingView>::empty());
        while k < entries.len()
            invariant
                k <= entries@.len(),
                es == pending_view(entries@),
                idx < self.channels@.len(),
                self.wf(),
                self.channels@.len() == ch0.len(),
                self.channels@[idx as int].sender_channel == id,
                self.pending@.len() == 0,
                *self == (Encrypted {
                    channels: self.channels,
                    write: self.write,
                    pending: self.pending,
                    ..*old(self)
                }),
                ({
                    let st = flush_run(id, (c0, Seq::empty(), Seq::empty(), false), es.take(k as int));
                    &&& self.channels@ == ch0.update(idx as int, st.0)
                    &&& self.written() == w0 + st.1
                    &&& pending_view(out@) == st.2
                    &&& blocked == st.3
                }),
            decreases entries@.len() - k,
        {
            let ghost st = flush_run(id, (c0, Seq::empty(), Seq::empty(), false), es.take(k as int));
            let ghost e = es[k as int];
            assert(es.take(k + 1).drop_last() =~= es.take(k as int));
            assert(es.take(k + 1).last() == e);
            let ghost out_before = out@;
            if entries[k].channel.0 != id.0 || blocked {
                let mut v: Vec<u8> = Vec::new();
                v.extend_from_slice(entries[k].data.as_slice());
                assert(v@ =~= e.2);
                out.push(Pending { channel: entries[k].channel, ext: entries[k].ext, data: v });
                assert(pending_view(out@) =~= pending_view(out_before).push(e));
            } else {
                proof {
                    self.lemma_find_spec(id, idx as int);
                    assert(self.channels@[idx as int] == st.0);
                }
                let n = self.data(id, entries[k].ext, entries[k].data.as_slice());
                assert(self.channels@ =~= ch0.update(idx as int, flush_step(id, st, e).0));
                if n < entries[k].data.len() {
                    let mut v: Vec<u8> = Vec::new();
                    v.extend_from_slice(&entries[k].data.as_slice()[n..entries[k].data.len()]);
                    assert(v@ =~= e.2.subrange(n as int, e.2.len() as int));
                    out.push(Pending { channel: id, ext: entries[k].ext, data: v });
                    assert(pending_view(out@) =~= pending_view(out_before).push(
                        (id, e.1, e.2.subrange(n as int, e.2.len() as int)),
                    ));
                    blocked = true;
                }
            }
            k = k + 1;
        }
        assert(es.take(entries@.len() as int) =~= es);
        self.pending = out;
    }
}

} // verus!
