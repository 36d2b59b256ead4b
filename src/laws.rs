//! Properties of whole runs of the session, proved from the contracts of
//! the functions that read packets.
use crate::codec::{framed, lemma_be32_u32_be, ssh_string, u32_be};
use crate::msg;
use crate::server::{auth_request_effect, rejected_with, rejection_action, ServerAction};
use crate::server_channel::{authenticated_effect, channel_open_effect, open_failure_payload, parse_channel_open, data_packets, parse_data, sendable};
use crate::server_session::{read_encrypted_effect, reply_effect, Kex, Session};
use crate::session::{after_data, state_rank, window_after_data, Channel, ChannelId, Encrypted, Error};
use crate::auth::AuthRequest;
use vstd::prelude::*;

verus! {

/// The payload of CHANNEL_DATA carrying `d` on channel `c`.
pub open spec fn data_packet(c: u32, d: Seq<u8>) -> Seq<u8> {
    seq![msg::CHANNEL_DATA] + u32_be(c) + ssh_string(d)
}

/// Over any run of packets read in the encrypted state, the state only
/// moves forward: waiting for a service request, then for authentication,
/// then authenticated.
pub proof fn states_only_move_forward(
    runs: Seq<Session>,
    packets: Seq<Seq<u8>>,
    results: Seq<Result<ServerAction, Error>>,
)
    requires
        runs.len() == packets.len() + 1,
        results.len() == packets.len(),
        runs[0].encrypted is Some,
        forall|i: int|
            0 <= i < packets.len() ==> read_encrypted_effect(
                #[trigger] runs[i],
                runs[i + 1],
                packets[i],
                results[i],
            ),
    ensures
        forall|i: int, j: int|
            0 <= i <= j < runs.len() ==> runs[j].encrypted is Some && state_rank(
                runs[i].encrypted.unwrap().state,
            ) <= state_rank(runs[j].encrypted.unwrap().state),
    decreases runs.len(),
{
    if packets.len() > 0 {
        let n = packets.len() - 1;
        let r2 = runs.subrange(0, n + 1);
        let p2 = packets.subrange(0, n);
        let s2 = results.subrange(0, n);
        assert forall|i: int| 0 <= i < p2.len() implies read_encrypted_effect(
            #[trigger] r2[i],
            r2[i + 1],
            p2[i],
            s2[i],
        ) by {
            assert(r2[i] == runs[i] && r2[i + 1] == runs[i + 1]);
            assert(read_encrypted_effect(runs[i], runs[i + 1], packets[i], results[i]));
        }
        states_only_move_forward(r2, p2, s2);
        assert(read_encrypted_effect(runs[n], runs[n + 1], packets[n], results[n]));
        assert forall|i: int, j: int| 0 <= i <= j < runs.len() implies runs[j].encrypted is Some
            && state_rank(runs[i].encrypted.unwrap().state) <= state_rank(
            runs[j].encrypted.unwrap().state,
        ) by {
            if j < runs.len() - 1 {
                assert(r2[i] == runs[i] && r2[j] == runs[j]);
            } else if i < j {
                assert(r2[i] == runs[i] && r2[n] == runs[n]);
            }
        }
    }
}

/// Over any run of routed packets, key re-exchanges included, the session
/// id stays the one fixed when the session was first encrypted.
pub proof fn session_id_is_fixed(
    runs: Seq<Session>,
    packets: Seq<Seq<u8>>,
    results: Seq<Result<ServerAction, Error>>,
)
    requires
        runs.len() == packets.len() + 1,
        results.len() == packets.len(),
        runs[0].encrypted is Some,
        forall|i: int|
            0 <= i < packets.len() ==> reply_effect(#[trigger] runs[i], runs[i + 1], packets[i], results[i]),
    ensures
        forall|i: int|
            0 <= i < runs.len() ==> #[trigger] runs[i].encrypted is Some && runs[i].encrypted.unwrap().session_id
                == runs[0].encrypted.unwrap().session_id,
    decreases runs.len(),
{
    if packets.len() > 0 {
        let n = packets.len() - 1;
        let r2 = runs.subrange(0, n + 1);
        let p2 = packets.subrange(0, n);
        let s2 = results.subrange(0, n);
        assert forall|i: int| 0 <= i < p2.len() implies reply_effect(#[trigger] r2[i], r2[i + 1], p2[i], s2[i]) by {
            assert(r2[i] == runs[i] && r2[i + 1] == runs[i + 1]);
            assert(reply_effect(runs[i], runs[i + 1], packets[i], results[i]));
        }
        session_id_is_fixed(r2, p2, s2);
        assert(reply_effect(runs[n], runs[n + 1], packets[n], results[n]));
        assert(r2[n] == runs[n]);
        assert forall|i: int| 0 <= i < runs.len() implies #[trigger] runs[i].encrypted is Some
            && runs[i].encrypted.unwrap().session_id == runs[0].encrypted.unwrap().session_id by {
            if i < runs.len() - 1 {
                assert(r2[i] == runs[i]);
            }
        }
    }
}

/// A re-exchange starts only where none runs, and takes the exchange with
/// it, so that a second KEXINIT cannot start another; while one runs, the
/// packets go to it and nothing of the encrypted state is read or written.
pub proof fn one_key_exchange_at_a_time(s0: Session, s1: Session, b: Seq<u8>, r: Result<ServerAction, Error>)
    requires
        reply_effect(s0, s1, b, r),
        s0.encrypted is Some,
        b.len() >= 1,
    ensures
        r matches Ok(ServerAction::Rekey { .. }) ==> s0.kex is None && s0.encrypted.unwrap().exchange is Some
            && s1.kex is Some && s1.encrypted.unwrap().exchange is None,
        (s0.kex matches Some(Kex::KexDh) || s0.kex matches Some(Kex::KexInit { algo_chosen: true })) ==> s1
            == s0 && r matches Ok(ServerAction::Kex),
{
}

/// A CHANNEL_DATA packet is read back as its channel and its bytes, exactly.
pub proof fn channel_data_round_trip(c: u32, d: Seq<u8>)
    requires
        d.len() <= u32::MAX,
    ensures
        parse_data(data_packet(c, d)) == Some((c, None::<u32>, d)),
{
    let b = data_packet(c, d);
    lemma_be32_u32_be(c);
    lemma_be32_u32_be(d.len() as u32);
    assert(b.subrange(1, 5) =~= u32_be(c));
    assert(b.subrange(5, 9) =~= u32_be(d.len() as u32));
    assert(b.subrange(9, 9 + d.len() as int) =~= d);
}

/// Once authenticated, the data of a CHANNEL_DATA packet reaches the handler
/// as its channel and its bytes, exactly.
pub proof fn data_reaches_handler(
    e: Encrypted,
    f: Encrypted,
    window_size: u32,
    maximum_packet_size: u32,
    w0: bool,
    w1: bool,
    c: u32,
    d: Seq<u8>,
    r: Result<ServerAction, Error>,
)
    requires
        d.len() <= u32::MAX,
        authenticated_effect(e, f, window_size, maximum_packet_size, w0, w1, data_packet(c, d), r),
    ensures
        r matches Ok(ServerAction::Data { channel, data }) && channel == ChannelId(c) && data@ == d,
{
    channel_data_round_trip(c, d);
    assert(data_packet(c, d)[0] == msg::CHANNEL_DATA);
}

/// After data arrives on a channel, its window is at least half of the
/// target; where it fell lower, the adjustment written brings it back to
/// the target exactly.
pub proof fn window_stays_replenished(c: Channel, len: int, target: u32)
    requires
        len >= 0,
    ensures
        after_data(c, len, target).0.sender_window_size >= target / 2,
        after_data(c, len, target).1 ==> window_after_data(c, len) + (target - window_after_data(c, len)) as u32
            == target,
        0 <= window_after_data(c, len) <= c.sender_window_size,
{
}

/// Every rejection of USERAUTH_REQUEST takes the same shape: a
/// USERAUTH_FAILURE listing the methods left, the request cleared and
/// counted, and the driver told to wait until the deadline, and to end the
/// session once the count reaches the attempts allowed.
pub proof fn rejections_look_alike(
    e: Encrypted,
    f: Encrypted,
    u0: Vec<u8>,
    u1: Vec<u8>,
    b: Seq<u8>,
    r: Result<ServerAction, Error>,
    max_attempts: usize,
)
    requires
        e.state is WaitingAuthRequest,
        auth_request_effect(e, f, u0, u1, b, r, max_attempts),
        r matches Ok(ServerAction::Rejected) || r matches Ok(ServerAction::RejectedLast),
    ensures
        exists|a: AuthRequest| #[trigger] rejected_with(e, f, a) && r == Ok::<ServerAction, Error>(
            rejection_action(a, max_attempts),
        ),
{
}

/// The sum of the amounts in `s`.
pub open spec fn total(s: Seq<int>) -> int
    decreases s.len(),
{
    if s.len() == 0 {
        0
    } else {
        total(s.drop_last()) + s.last()
    }
}

/// Over any run of sends on a channel, with no window adjustment between
/// them, the bytes sent add up to what the peer's window lost: never more
/// than the window it granted.
pub proof fn sends_stay_within_window(windows: Seq<Channel>, lens: Seq<int>, sent: Seq<int>)
    requires
        windows.len() == lens.len() + 1,
        sent.len() == lens.len(),
        forall|i: int|
            0 <= i < lens.len() ==> #[trigger] sent[i] == sendable(windows[i], lens[i]) && lens[i] >= 0
                && windows[i + 1].recipient_window_size == windows[i].recipient_window_size - sent[i],
    ensures
        total(sent) + windows.last().recipient_window_size == windows[0].recipient_window_size,
        total(sent) <= windows[0].recipient_window_size,
    decreases lens.len(),
{
    if lens.len() > 0 {
        let n = lens.len() - 1;
        let w2 = windows.subrange(0, n + 1);
        let l2 = lens.subrange(0, n);
        let s2 = sent.subrange(0, n);
        assert forall|i: int| 0 <= i < l2.len() implies #[trigger] s2[i] == sendable(w2[i], l2[i]) && l2[i] >= 0
            && w2[i + 1].recipient_window_size == w2[i].recipient_window_size - s2[i] by {
            assert(sent[i] == sendable(windows[i], lens[i]));
        }
        sends_stay_within_window(w2, l2, s2);
        assert(sent.drop_last() =~= s2);
        assert(sent[n] == sendable(windows[n], lens[n]));
    }
}

/// Data that fits in one packet is sent as one CHANNEL_DATA packet, which
/// the peer reads back as the same bytes.
pub proof fn small_data_is_one_packet(recipient: u32, d: Seq<u8>, max: nat)
    requires
        0 < d.len() <= max,
        d.len() <= u32::MAX,
    ensures
        data_packets(recipient, None, d, max) == framed(data_packet(recipient, d)),
        parse_data(data_packet(recipient, d)) == Some((recipient, None::<u32>, d)),
{
    assert(d.subrange(0, d.len() as int) =~= d);
    assert(data_packets(recipient, None, d.subrange(d.len() as int, d.len() as int), max) == Seq::<u8>::empty());
    assert(framed(data_packet(recipient, d)) + Seq::<u8>::empty() =~= framed(data_packet(recipient, d)));
    channel_data_round_trip(recipient, d);
}

/// A key exchange is running: ours was answered, or the exchange is past
/// its first step.
pub open spec fn key_exchange_running(k: Option<Kex>) -> bool {
    k matches Some(Kex::KexInit { algo_chosen: true }) || k matches Some(Kex::KexDh) || k matches Some(
        Kex::NewKeys(_),
    ) || k matches Some(Kex::KexDhDone)
}

/// Over any run of packets routed while a key exchange runs, NEWKEYS
/// included, the session keeps its state, channels, session id, buffered
/// packets and waiting data: nothing is lost, and the traffic goes on
/// after the exchange where it stood before it.
pub proof fn rekey_keeps_the_session(
    runs: Seq<Session>,
    packets: Seq<Seq<u8>>,
    results: Seq<Result<ServerAction, Error>>,
)
    requires
        runs.len() == packets.len() + 1,
        results.len() == packets.len(),
        runs[0].encrypted is Some,
        forall|i: int|
            0 <= i < packets.len() ==> reply_effect(#[trigger] runs[i], runs[i + 1], packets[i], results[i])
                && key_exchange_running(runs[i].kex),
    ensures
        forall|i: int|
            0 <= i < runs.len() ==> #[trigger] runs[i].encrypted is Some && {
                let e = runs[0].encrypted.unwrap();
                let f = runs[i].encrypted.unwrap();
                &&& f.state == e.state
                &&& f.channels == e.channels
                &&& f.session_id == e.session_id
                &&& f.write == e.write
                &&& f.pending == e.pending
            },
    decreases runs.len(),
{
    if packets.len() > 0 {
        let n = packets.len() - 1;
        let r2 = runs.subrange(0, n + 1);
        let p2 = packets.subrange(0, n);
        let s2 = results.subrange(0, n);
        assert forall|i: int| 0 <= i < p2.len() implies reply_effect(#[trigger] r2[i], r2[i + 1], p2[i], s2[i])
            && key_exchange_running(r2[i].kex) by {
            assert(r2[i] == runs[i] && r2[i + 1] == runs[i + 1]);
            assert(reply_effect(runs[i], runs[i + 1], packets[i], results[i]) && key_exchange_running(runs[i].kex));
        }
        rekey_keeps_the_session(r2, p2, s2);
        assert(reply_effect(runs[n], runs[n + 1], packets[n], results[n]) && key_exchange_running(runs[n].kex));
        assert(r2[n] == runs[n]);
        assert forall|i: int| 0 <= i < runs.len() implies #[trigger] runs[i].encrypted is Some && {
            let e = runs[0].encrypted.unwrap();
            let f = runs[i].encrypted.unwrap();
            &&& f.state == e.state
            &&& f.channels == e.channels
            &&& f.session_id == e.session_id
            &&& f.write == e.write
            &&& f.pending == e.pending
        } by {
            if i < runs.len() - 1 {
                assert(r2[i] == runs[i]);
            }
        }
    }
}

/// A channel of a type other than session, X11 or direct TCP/IP is
/// refused with CHANNEL_OPEN_FAILURE and never registered, on any table
/// that is not full.
pub proof fn unknown_channel_type_is_refused(
    e: Encrypted,
    f: Encrypted,
    window_size: u32,
    maximum_packet_size: u32,
    b: Seq<u8>,
    r: Result<ServerAction, Error>,
)
    requires
        channel_open_effect(e, f, window_size, maximum_packet_size, b, r),
        e.channels@.len() < 0x1_0000_0000,
        parse_channel_open(b) matches Some((t, _, _, _, _)) && t != crate::names::session() && t
            != crate::names::x11() && t != crate::names::direct_tcpip(),
    ensures
        r matches Ok(ServerAction::Done),
        f.channels == e.channels,
        f.written() == e.written() + framed(open_failure_payload(parse_channel_open(b).unwrap().1)),
{
}

} // verus!
