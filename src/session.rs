//! The per-connection encrypted state: the authentication state machine's
//! current state, the session id, the channel table and the outbound buffer.
use crate::auth::AuthRequest;
use crate::codec::{crypto_bytes, framed, push_packet, push_u32, u32_be};
use crate::msg;
use cryptovec::CryptoVec;
use vstd::prelude::*;

verus! {

/// What ends a session.
#[derive(Debug, Clone, Copy, PartialEq, Eq, Structural)]
pub enum Error {
    /// A packet is truncated, or a length in it overflows.
    MalformedPacket,
    /// A protocol invariant is violated: an unexpected packet, channel or service.
    Inconsistent,
    /// A packet names a channel that is not open.
    WrongChannel,
    /// The server left no authentication method to try.
    NoAuthMethod,
    /// The key exchange did not end with NEWKEYS.
    Kex,
    /// The application's end of the reply channel is closed.
    SendError,
    /// Every channel id is in use.
    NoChannelId,
}

/// A channel number, as chosen by the endpoint that opened it.
#[derive(Debug, Clone, Copy, PartialEq, Eq, Structural, Hash)]
pub struct ChannelId(pub u32);

/// The parameters of one channel. "Sender" is this end, "recipient" the peer.
#[derive(Debug, Clone, Copy, PartialEq, Eq, Structural)]
pub struct Channel {
    pub recipient_channel: u32,
    pub sender_channel: ChannelId,
    pub recipient_window_size: u32,
    pub sender_window_size: u32,
    pub recipient_maximum_packet_size: u32,
    pub sender_maximum_packet_size: u32,
    pub confirmed: bool,
    pub wants_reply: bool,
}

/// What the key exchange needs to run again: the identification strings and
/// the KEXINIT payloads of both sides.
#[derive(Debug, Clone)]
pub struct Exchange {
    pub client_id: Vec<u8>,
    pub server_id: Vec<u8>,
    pub client_kex_init: Vec<u8>,
    pub server_kex_init: Vec<u8>,
}

/// Where the session stands after the first key exchange.
#[derive(Debug, Clone)]
pub enum EncryptedState {
    WaitingServiceRequest { accepted: bool },
    WaitingAuthRequest(AuthRequest),
    Authenticated,
}

/// The rank of a state in the forward-only order of the state machine.
pub open spec fn state_rank(s: EncryptedState) -> int {
    match s {
        EncryptedState::WaitingServiceRequest { .. } => 0,
        EncryptedState::WaitingAuthRequest(_) => 1,
        EncryptedState::Authenticated => 2,
    }
}

/// No two channels of the table share a local id.
pub open spec fn channels_unique(cs: Seq<Channel>) -> bool {
    forall|i: int, j: int|
        0 <= i < cs.len() && 0 <= j < cs.len() && i != j ==> #[trigger] cs[i].sender_channel
            != #[trigger] cs[j].sender_channel
}

/// Some channel of the table has local id `id`.
pub open spec fn has_channel(cs: Seq<Channel>, id: ChannelId) -> bool {
    exists|i: int| 0 <= i < cs.len() && #[trigger] cs[i].sender_channel == id
}

/// The index of the channel with local id `id`, if any.
pub open spec fn find_index(cs: Seq<Channel>, id: ChannelId) -> Option<int> {
    if has_channel(cs, id) {
        Some(choose|i: int| 0 <= i < cs.len() && #[trigger] cs[i].sender_channel == id)
    } else {
        None
    }
}

/// `cs1` is `cs0` without the channel `id`: every other record is kept as
/// it was, and no record is added.
pub open spec fn channel_removed(cs0: Seq<Channel>, cs1: Seq<Channel>, id: ChannelId) -> bool {
    &&& !has_channel(cs1, id)
    &&& forall|k: int| 0 <= k < cs1.len() ==> cs0.contains(#[trigger] cs1[k])
    &&& forall|k: int| 0 <= k < cs0.len() && cs0[k].sender_channel != id ==> cs1.contains(#[trigger] cs0[k])
}

/// A table in which every id is in use holds at least 2^32 channels.
pub proof fn lemma_full_table(cs: Seq<Channel>)
    requires
        forall|x: u32| has_channel(cs, ChannelId(x)),
    ensures
        cs.len() >= 0x1_0000_0000,
{
    let ids = cs.map_values(|c: Channel| c.sender_channel.0 as int);
    ids.lemma_cardinality_of_set();
    vstd::seq_lib::seq_to_set_is_finite(ids);
    vstd::set_lib::lemma_int_range(0, 0x1_0000_0000);
    assert forall|i: int| vstd::set_lib::set_int_range(0, 0x1_0000_0000).contains(i) implies ids.to_set().contains(i) by {
        let x = i as u32;
        assert(has_channel(cs, ChannelId(x)));
        let k = choose|k: int| 0 <= k < cs.len() && #[trigger] cs[k].sender_channel == ChannelId(x);
        assert(ids[k] == i);
        assert(ids.contains(i));
    }
    vstd::set_lib::lemma_len_subset(vstd::set_lib::set_int_range(0, 0x1_0000_0000), ids.to_set());
}

/// The id `k + 1` places after `start`, with wrap-around.
pub open spec fn id_after(start: u32, k: int) -> ChannelId {
    ChannelId(((start as int + 1 + k) % 0x1_0000_0000) as u32)
}

/// The payload of CHANNEL_WINDOW_ADJUST.
pub open spec fn window_adjust_payload(recipient: u32, delta: u32) -> Seq<u8> {
    seq![msg::CHANNEL_WINDOW_ADJUST] + u32_be(recipient) + u32_be(delta)
}

/// A channel after `len` bytes of data arrived on it, and whether the window
/// fell under half of `target` and was restored to it.
pub open spec fn after_data(c: Channel, len: int, target: u32) -> (Channel, bool) {
    let w = if len <= c.sender_window_size { (c.sender_window_size - len) as u32 } else {
        c.sender_window_size
    };
    if w < target / 2 {
        (Channel { sender_window_size: target, ..c }, true)
    } else {
        (Channel { sender_window_size: w, ..c }, false)
    }
}

/// The local window after `len` bytes arrived: it shrinks where it holds
/// that much.
pub open spec fn window_after_data(c: Channel, len: int) -> int {
    if len <= c.sender_window_size {
        c.sender_window_size - len
    } else {
        c.sender_window_size as int
    }
}

/// `f` is `e` after `len` bytes of data arrived on channel `id`: the channel's
/// window is accounted for and, where it fell under half of `target`, a
/// window adjustment restoring it is written. Nothing changes for a channel
/// that is not open.
pub open spec fn data_received(e: Encrypted, f: Encrypted, id: ChannelId, len: int, target: u32) -> bool {
    &&& f == (Encrypted { channels: f.channels, write: f.write, ..e })
    &&& match find_index(e.channels@, id) {
        Some(i) => {
            let c = e.channels@[i];
            let (c2, adj) = after_data(c, len, target);
            &&& f.channels@ == e.channels@.update(i, c2)
            &&& f.written() == if adj {
                e.written() + framed(
                    window_adjust_payload(c.recipient_channel, (target - window_after_data(c, len)) as u32),
                )
            } else {
                e.written()
            }
        },
        None => f.channels == e.channels && f.write == e.write,
    }
}

/// The table after the want-reply flag of channel `id` is set to `w`.
pub open spec fn with_wants_reply(cs: Seq<Channel>, id: ChannelId, w: bool) -> Seq<Channel> {
    match find_index(cs, id) {
        Some(i) => cs.update(i, Channel { wants_reply: w, ..cs[i] }),
        None => cs,
    }
}

/// Data waiting for the peer's window to open on its channel.
pub struct Pending {
    pub channel: ChannelId,
    pub ext: Option<u32>,
    pub data: Vec<u8>,
}

/// A waiting piece of data as plain values: its channel, its extended-data
/// code, its bytes.
pub type PendingView = (ChannelId, Option<u32>, Seq<u8>);

/// The queue of waiting data as plain values, in order.
pub open spec fn pending_view(p: Seq<Pending>) -> Seq<PendingView> {
    Seq::new(p.len(), |i: int| (p[i].channel, p[i].ext, p[i].data@))
}

/// Some data waits on channel `id`.
pub open spec fn has_pending(p: Seq<PendingView>, id: ChannelId) -> bool {
    exists|k: int| 0 <= k < p.len() && (#[trigger] p[k]).0 == id
}

/// The per-connection state once the transport is encrypted.
pub struct Encrypted {
    pub state: EncryptedState,
    pub exchange: Option<Exchange>,
    pub session_id: Vec<u8>,
    pub channels: Vec<Channel>,
    pub last_channel_id: u32,
    pub write: CryptoVec,
    /// Data that the peer's windows did not let through yet, in order.
    pub pending: Vec<Pending>,
}

impl Encrypted {
    pub open spec fn wf(&self) -> bool {
        channels_unique(self.channels@)
    }

    /// Whether the channel table is well formed: no local id twice.
    pub fn wf_holds(&self) -> (r: bool)
        ensures
            r == self.wf(),
    {
        let n = self.channels.len();
        let mut i: usize = 0;
        while i < n
            invariant
                n == self.channels@.len(),
                i <= n,
                forall|a: int, b: int|
                    0 <= a < i && 0 <= b < n && a != b ==> #[trigger] self.channels@[a].sender_channel
                        != #[trigger] self.channels@[b].sender_channel,
            decreases n - i,
        {
            let mut j: usize = 0;
            while j < n
                invariant
                    n == self.channels@.len(),
                    i < n,
                    j <= n,
                    forall|a: int, b: int|
                        0 <= a < i && 0 <= b < n && a != b ==> #[trigger] self.channels@[a].sender_channel
                            != #[trigger] self.channels@[b].sender_channel,
                    forall|b: int|
                        0 <= b < j && b != i ==> self.channels@[i as int].sender_channel != #[trigger] self.channels@[b].sender_channel,
                decreases n - j,
            {
                if j != i && self.channels[i].sender_channel.0 == self.channels[j].sender_channel.0 {
                    assert(!channels_unique(self.channels@));
                    return false;
                }
                j = j + 1;
            }
            i = i + 1;
        }
        true
    }

    /// The bytes waiting to be sent.
    pub open spec fn written(&self) -> Seq<u8> {
        crypto_bytes(self.write)
    }

    /// The state installed when the first key exchange completes.
    pub fn new(state: EncryptedState, session_id: Vec<u8>, exchange: Exchange, write: CryptoVec) -> (r: Encrypted)
        ensures
            r.wf(),
            r.state == state,
            r.session_id == session_id,
            r.exchange == Some(exchange),
            r.channels@.len() == 0,
            r.last_channel_id == 0,
            r.write == write,
            r.pending@.len() == 0,
    {
        Encrypted {
            state,
            exchange: Some(exchange),
            session_id,
            channels: Vec::new(),
            last_channel_id: 0,
            write,
            pending: Vec::new(),
        }
    }

    /// Takes the exchange out, to hand it to a key re-exchange.
    pub fn take_exchange(&mut self) -> (r: Option<Exchange>)
        ensures
            r == old(self).exchange,
            *final(self) == (Encrypted { exchange: None, ..*old(self) }),
    {
        self.exchange.take()
    }

    /// Puts back the exchange that a completed re-exchange returns.
    pub fn put_exchange(&mut self, ex: Exchange)
        ensures
            *final(self) == (Encrypted { exchange: Some(ex), ..*old(self) }),
    {
        self.exchange = Some(ex);
    }

    /// The index of the channel with local id `id`.
    pub fn find_channel(&self, id: ChannelId) -> (r: Option<usize>)
        ensures
            match r {
                Some(i) => i < self.channels@.len() && self.channels@[i as int].sender_channel == id,
                None => !has_channel(self.channels@, id),
            },
    {
        let mut i: usize = 0;
        while i < self.channels.len()
            invariant
                i <= self.channels@.len(),
                forall|k: int| 0 <= k < i ==> self.channels@[k].sender_channel != id,
            decreases self.channels@.len() - i,
        {
            if self.channels[i].sender_channel.0 == id.0 {
                return Some(i);
            }
            i = i + 1;
        }
        None
    }

    /// A local id that no channel uses: the first free one after the last
    /// id handed out, counting on with wrap-around.
    pub fn new_channel_id(&mut self) -> (r: Option<ChannelId>)
        requires
            old(self).wf(),
        ensures
            final(self).wf(),
            final(self).channels == old(self).channels,
            final(self).state == old(self).state,
            final(self).session_id == old(self).session_id,
            final(self).exchange == old(self).exchange,
            final(self).write == old(self).write,
            match r {
                Some(id) => !has_channel(old(self).channels@, id) && final(self).last_channel_id
                    == id.0,
                None => old(self).channels@.len() >= 0x1_0000_0000 && forall|x: u32| has_channel(
                    old(self).channels@,
                    ChannelId(x),
                ),
            },
    {
        let start = self.last_channel_id;
        let mut tried: u64 = 0;
        while tried < 0x1_0000_0000
            invariant
                tried <= 0x1_0000_0000,
                self.channels == old(self).channels,
                self.state == old(self).state,
                self.session_id == old(self).session_id,
                self.exchange == old(self).exchange,
                self.write == old(self).write,
                self.wf(),
                start == old(self).last_channel_id,
                forall|k: int|
                    0 <= k < tried ==> has_channel(self.channels@, #[trigger] id_after(start, k)),
            decreases 0x1_0000_0000 - tried,
        {
            let candidate = ((start as u64 + 1 + tried) % 0x1_0000_0000) as u32;
            if self.find_channel(ChannelId(candidate)).is_none() {
                self.last_channel_id = candidate;
                return Some(ChannelId(candidate));
            }
            tried = tried + 1;
        }
        assert forall|x: u32| has_channel(old(self).channels@, ChannelId(x)) by {
            let k = (x as int - start as int - 1 + 0x1_0000_0000) % 0x1_0000_0000;
            assert(id_after(start, k) == ChannelId(x));
        }
        proof {
            lemma_full_table(old(self).channels@);
        }
        None
    }

    /// Adds a channel whose local id is not in use.
    pub fn insert_channel(&mut self, c: Channel)
        requires
            old(self).wf(),
            !has_channel(old(self).channels@, c.sender_channel),
        ensures
            final(self).wf(),
            *final(self) == (Encrypted { channels: final(self).channels, ..*old(self) }),
            final(self).channels@ == old(self).channels@.push(c),
    {
        self.channels.push(c);
        assert forall|i: int, j: int|
            0 <= i < self.channels@.len() && 0 <= j < self.channels@.len() && i != j implies
            #[trigger] self.channels@[i].sender_channel != #[trigger] self.channels@[j].sender_channel by {
            if i < old(self).channels@.len() && j < old(self).channels@.len() {
            } else if i == old(self).channels@.len() {
                assert(old(self).channels@[j] == self.channels@[j]);
            } else {
                assert(old(self).channels@[i] == self.channels@[i]);
            }
        }
    }

    /// Removes the channel with local id `id`, if there is one.
    pub fn remove_channel(&mut self, id: ChannelId)
        requires
            old(self).wf(),
        ensures
            final(self).wf(),
            *final(self) == (Encrypted { channels: final(self).channels, ..*old(self) }),
            !has_channel(final(self).channels@, id),
            forall|c: ChannelId|
                c != id ==> (has_channel(final(self).channels@, c) == has_channel(
                    old(self).channels@,
                    c,
                )),
            forall|k: int|
                0 <= k < final(self).channels@.len() ==> old(self).channels@.contains(
                    #[trigger] final(self).channels@[k],
                ),
            channel_removed(old(self).channels@, final(self).channels@, id),
    {
        match self.find_channel(id) {
            Some(i) => {
                let ghost before = self.channels@;
                self.channels.remove(i);
                let ghost after = self.channels@;
                assert(after =~= before.remove(i as int));
                assert forall|k: int| 0 <= k < after.len() implies #[trigger] after[k] == (if k < i {
                    before[k]
                } else {
                    before[k + 1]
                }) by {}
                assert forall|c: ChannelId| c != id implies (has_channel(after, c) == has_channel(
                    before,
                    c,
                )) by {
                    if has_channel(before, c) {
                        let k = choose|k: int| 0 <= k < before.len() && #[trigger] before[k].sender_channel == c;
                        if k < i {
                            assert(after[k].sender_channel == c);
                        } else {
                            assert(k != i);
                            assert(after[k - 1].sender_channel == c);
                        }
                    }
                    if has_channel(after, c) {
                        let k = choose|k: int| 0 <= k < after.len() && #[trigger] after[k].sender_channel == c;
                        if k < i {
                            assert(before[k].sender_channel == c);
                        } else {
                            assert(before[k + 1].sender_channel == c);
                        }
                    }
                }
                assert(!has_channel(after, id)) by {
                    if has_channel(after, id) {
                        let k = choose|k: int| 0 <= k < after.len() && #[trigger] after[k].sender_channel == id;
                        if k < i {
                            assert(before[k].sender_channel == id);
                        } else {
                            assert(before[k + 1].sender_channel == id);
                        }
                    }
                }
                assert forall|k: int| 0 <= k < after.len() implies before.contains(#[trigger] after[k]) by {
                    if k < i {
                        assert(before[k] == after[k]);
                    } else {
                        assert(before[k + 1] == after[k]);
                    }
                }
                assert forall|k: int| 0 <= k < before.len() && before[k].sender_channel != id implies after.contains(
                    #[trigger] before[k],
                ) by {
                    if k < i {
                        assert(after[k] == before[k]);
                    } else {
                        assert(k != i);
                        assert(after[k - 1] == before[k]);
                    }
                }
            },
            None => {
                assert forall|k: int| 0 <= k < self.channels@.len() implies old(self).channels@.contains(
                    #[trigger] self.channels@[k],
                ) by {
                    assert(old(self).channels@[k] == self.channels@[k]);
                }
                assert forall|k: int| 0 <= k < old(self).channels@.len() && old(self).channels@[k].sender_channel != id
                    implies self.channels@.contains(#[trigger] old(self).channels@[k]) by {
                    assert(old(self).channels@[k] == self.channels@[k]);
                }
            },
        }
    }

    /// Accounts for `len` bytes of data received on channel `id`: the local
    /// window shrinks by `len` (when it holds that much), and where it falls
    /// under half of `target`, a window adjustment restores it to `target`.
    /// Returns whether an adjustment was written.
    pub fn adjust_window_size(&mut self, id: ChannelId, len: usize, target: u32) -> (r: bool)
        requires
            old(self).wf(),
        ensures
            final(self).wf(),
            *final(self) == (Encrypted { channels: final(self).channels, write: final(self).write, ..*old(self) }),
            data_received(*old(self), *final(self), id, len as int, target),
            r == match find_index(old(self).channels@, id) {
                Some(i) => after_data(old(self).channels@[i], len as int, target).1,
                None => false,
            },
    {
        match self.find_channel(id) {
            Some(i) => {
                proof {
                    self.lemma_find_spec(id, i as int);
                }
                let mut c = self.channels[i];
                if len <= c.sender_window_size as usize {
                    c.sender_window_size = c.sender_window_size - len as u32;
                }
                let adj = c.sender_window_size < target / 2;
                if adj {
                    let mut p: Vec<u8> = vec![msg::CHANNEL_WINDOW_ADJUST];
                    push_u32(&mut p, c.recipient_channel);
                    push_u32(&mut p, target - c.sender_window_size);
                    push_packet(&mut self.write, p.as_slice());
                    assert(p@ =~= window_adjust_payload(c.recipient_channel, (target - c.sender_window_size) as u32));
                    c.sender_window_size = target;
                }
                self.set_channel(i, c);
                adj
            },
            None => {
                proof {
                    self.lemma_find_spec_none(id);
                }
                false
            },
        }
    }

    pub(crate) proof fn lemma_find_spec(&self, id: ChannelId, i: int)
        requires
            self.wf(),
            0 <= i < self.channels@.len(),
            self.channels@[i].sender_channel == id,
        ensures
            find_index(self.channels@, id) == Some(i),
    {
        let cs = self.channels@;
        assert(has_channel(cs, id));
        let j = choose|j: int| 0 <= j < cs.len() && #[trigger] cs[j].sender_channel == id;
        assert(cs[i].sender_channel == cs[j].sender_channel);
    }

    pub(crate) proof fn lemma_find_spec_none(&self, id: ChannelId)
        requires
            !has_channel(self.channels@, id),
        ensures
            find_index(self.channels@, id) == None::<int>,
    {
    }

    /// Replaces the channel at index `i` by one with the same local id.
    pub(crate) fn set_channel(&mut self, i: usize, c: Channel)
        requires
            old(self).wf(),
            i < old(self).channels@.len(),
            old(self).channels@[i as int].sender_channel == c.sender_channel,
        ensures
            final(self).wf(),
            *final(self) == (Encrypted { channels: final(self).channels, ..*old(self) }),
            final(self).channels@ == old(self).channels@.update(i as int, c),
    {
        self.channels.set(i, c);
        assert forall|a: int, b: int|
            0 <= a < self.channels@.len() && 0 <= b < self.channels@.len() && a != b implies
            #[trigger] self.channels@[a].sender_channel != #[trigger] self.channels@[b].sender_channel by {
            assert(old(self).channels@[a].sender_channel == self.channels@[a].sender_channel);
            assert(old(self).channels@[b].sender_channel == self.channels@[b].sender_channel);
        }
    }

    /// Records whether the peer wants a reply to its last request on channel
    /// `id`.
    pub fn set_wants_reply(&mut self, id: ChannelId, w: bool)
        requires
            old(self).wf(),
        ensures
            final(self).wf(),
            *final(self) == (Encrypted { channels: final(self).channels, ..*old(self) }),
            final(self).channels@ == with_wants_reply(old(self).channels@, id, w),
    {
        match self.find_channel(id) {
            Some(i) => {
                proof {
                    self.lemma_find_spec(id, i as int);
                }
                let mut c = self.channels[i];
                c.wants_reply = w;
                self.set_channel(i, c);
            },
            None => {
                proof {
                    self.lemma_find_spec_none(id);
                }
            },
        }
    }

    /// Adds `amount` to the peer's window on channel `id`, and returns the new
    /// window. A channel that is not open is an error, and so is a window that
    /// would exceed 2^32 - 1 bytes.
    pub fn window_adjusted(&mut self, id: ChannelId, amount: u32) -> (r: Result<u32, Error>)
        requires
            old(self).wf(),
        ensures
            final(self).wf(),
            *final(self) == (Encrypted { channels: final(self).channels, ..*old(self) }),
            match find_index(old(self).channels@, id) {
                Some(i) => {
                    let c = old(self).channels@[i];
                    if c.recipient_window_size + amount <= u32::MAX {
                        let w = (c.recipient_window_size + amount) as u32;
                        &&& r == Ok::<u32, Error>(w)
                        &&& final(self).channels@ == old(self).channels@.update(
                            i,
                            Channel { recipient_window_size: w, ..c },
                        )
                    } else {
                        r == Err::<u32, Error>(Error::Inconsistent) && final(self).channels
                            == old(self).channels
                    }
                },
                None => r == Err::<u32, Error>(Error::WrongChannel) && final(self).channels
                    == old(self).channels,
            },
    {
        match self.find_channel(id) {
            Some(i) => {
                proof {
                    self.lemma_find_spec(id, i as int);
                }
                let mut c = self.channels[i];
                if c.recipient_window_size <= u32::MAX - amount {
                    c.recipient_window_size = c.recipient_window_size + amount;
                    self.set_channel(i, c);
                    Ok(c.recipient_window_size)
                } else {
                    Err(Error::Inconsistent)
                }
            },
            None => {
                proof {
                    self.lemma_find_spec_none(id);
                }
                Err(Error::WrongChannel)
            },
        }
    }
}

} // verus!
