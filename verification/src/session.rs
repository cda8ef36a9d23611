//! The state of a session.
use crate::auth::{AuthRequest, Method};
use crate::buffer::{buffer_max, contents};
use crate::encoding::{packet, push_packet};
use crate::msg;
use cryptovec::CryptoVec;
use std::collections::{HashMap, VecDeque};
use vstd::prelude::*;

verus! {

broadcast use vstd::std_specs::hash::group_hash_axioms;

/// The values that a session carries for the layers around it, without looking inside.
pub trait Transport: Sized {
    /// A key exchange that this side has started.
    type Init;

    /// A key exchange whose Diffie-Hellman half has been sent.
    type DhDone;

    /// The identification strings and key exchange packets of both sides.
    type Exchange;

    /// The ciphers and keys in use.
    type Cipher;

    /// A key pair that can sign.
    type KeyPair;

    /// The sending half of a channel's queue.
    type Sender: Clone;

    /// The receiving half of a channel's queue.
    type Receiver;
}

/// The number by which this side knows a channel.
#[derive(Clone, Copy, Debug, PartialEq, Eq, Structural)]
pub struct ChannelId(pub u32);

/// The settings of a session.
#[derive(Clone, Copy, Debug, PartialEq, Eq, Structural)]
pub struct Config {
    /// How many bytes the server may send on a channel before the window is opened again.
    pub window_size: u32,
    /// The largest packet that the server may send on a channel.
    pub maximum_packet_size: u32,
}

/// An Internet address.
#[derive(Clone, Copy, Debug, PartialEq, Eq, Structural)]
pub enum IpAddr {
    V4(u32),
    V6(u128),
}

/// An Internet address and a port.
#[derive(Clone, Copy, Debug, PartialEq, Eq, Structural)]
pub struct SocketAddr {
    pub ip: IpAddr,
    pub port: u16,
}

/// The phases of a key exchange inside an encrypted session.
pub enum Kex<T: Transport> {
    /// This side has announced its algorithms.
    KexInit(T::Init),
    /// This side has sent its half. `ignore_guessed`: the next packet is a wrong guess.
    KexDhDone { ignore_guessed: bool, state: T::DhDone },
    /// Both halves are known; the new keys wait for the server's signal.
    NewKeys { exchange: T::Exchange, cipher: T::Cipher },
}

/// How far the session has come since the first key exchange.
#[derive(Clone, Copy, Debug, PartialEq, Eq, Structural)]
pub enum EncryptedState {
    WaitingServiceRequest { sent: bool, accepted: bool },
    WaitingAuthRequest(AuthRequest),
    InitCompression,
    Authenticated,
}

/// What both sides have agreed on for a channel.
pub struct ChannelParameters {
    pub recipient_channel: u32,
    pub sender_channel: ChannelId,
    pub recipient_window_size: u32,
    pub sender_window_size: u32,
    pub recipient_maximum_packet_size: u32,
    pub sender_maximum_packet_size: u32,
    /// Has the other side confirmed the channel?
    pub confirmed: bool,
    pub wants_reply: bool,
    pub pending_data: VecDeque<(CryptoVec, Option<u32>, usize)>,
}

/// The mathematical counterpart of `ChannelParameters`.
#[verifier::ext_equal]
pub struct ParametersView {
    pub recipient_channel: u32,
    pub sender_channel: ChannelId,
    pub recipient_window_size: u32,
    pub sender_window_size: u32,
    pub recipient_maximum_packet_size: u32,
    pub sender_maximum_packet_size: u32,
    pub confirmed: bool,
    pub wants_reply: bool,
    pub pending_data: Seq<(CryptoVec, Option<u32>, usize)>,
}

impl View for ChannelParameters {
    type V = ParametersView;

    open spec fn view(&self) -> ParametersView {
        ParametersView {
            recipient_channel: self.recipient_channel,
            sender_channel: self.sender_channel,
            recipient_window_size: self.recipient_window_size,
            sender_window_size: self.sender_window_size,
            recipient_maximum_packet_size: self.recipient_maximum_packet_size,
            sender_maximum_packet_size: self.sender_maximum_packet_size,
            confirmed: self.confirmed,
            wants_reply: self.wants_reply,
            pending_data: self.pending_data@,
        }
    }
}

/// The encrypted part of a session.
pub struct Encrypted<T: Transport> {
    pub state: EncryptedState,
    pub exchange: Option<T::Exchange>,
    pub session_id: Vec<u8>,
    pub rekey: Option<Kex<T>>,
    pub channels: HashMap<u32, ChannelParameters>,
    pub last_channel_id: u32,
    /// The packets that wait for the cipher, each with its length in front.
    pub write: CryptoVec,
}

/// The mathematical counterpart of `Encrypted`.
#[verifier::ext_equal]
pub struct EncryptedView<T: Transport> {
    pub state: EncryptedState,
    pub exchange: Option<T::Exchange>,
    pub session_id: Seq<u8>,
    pub rekey: Option<Kex<T>>,
    pub channels: Map<u32, ParametersView>,
    pub last_channel_id: u32,
    pub write: Seq<u8>,
}

impl<T: Transport> View for Encrypted<T> {
    type V = EncryptedView<T>;

    open spec fn view(&self) -> EncryptedView<T> {
        EncryptedView {
            state: self.state,
            exchange: self.exchange,
            session_id: self.session_id@,
            rekey: self.rekey,
            channels: self.channels@.map_values(|p: ChannelParameters| p@),
            last_channel_id: self.last_channel_id,
            write: contents(self.write),
        }
    }
}

/// The channel number `k` steps after `last`, counting in a circle.
pub open spec fn id_after(last: u32, k: int) -> u32 {
    ((last + k) % 0x1_0000_0000) as u32
}

/// `id` is the first number after `last` that no channel uses.
pub open spec fn is_next_id(used: Set<u32>, last: u32, id: u32) -> bool {
    exists|k: int|
        1 <= k && id == #[trigger] id_after(last, k) && !used.contains(id) && forall|j: int|
            1 <= j < k ==> used.contains(#[trigger] id_after(last, j))
}

/// The first number after `last` that no channel uses.
pub open spec fn next_id(used: Set<u32>, last: u32) -> u32 {
    choose|id: u32| is_next_id(used, last, id)
}

/// There is a number that no channel uses.
pub open spec fn has_free_id(used: Set<u32>) -> bool {
    exists|id: u32| !used.contains(id)
}

/// There is at most one first free number.
proof fn lemma_next_id(used: Set<u32>, last: u32, id: u32)
    requires
        is_next_id(used, last, id),
    ensures
        next_id(used, last) == id,
{
    let other = next_id(used, last);
    assert(is_next_id(used, last, other));
    let k = choose|k: int|
        1 <= k && id == #[trigger] id_after(last, k) && !used.contains(id) && forall|j: int|
            1 <= j < k ==> used.contains(#[trigger] id_after(last, j));
    let m = choose|k: int|
        1 <= k && other == #[trigger] id_after(last, k) && !used.contains(other) && forall|j: int|
            1 <= j < k ==> used.contains(#[trigger] id_after(last, j));
    if k < m {
        assert(used.contains(id_after(last, k)));
    }
    if m < k {
        assert(used.contains(id_after(last, m)));
    }
}

impl<T: Transport> EncryptedView<T> {
    /// `n` more bytes fit the packets that wait.
    pub open spec fn room(self, n: nat) -> bool {
        self.write.len() + n <= buffer_max()
    }

    /// The state after a packet has been appended.
    pub open spec fn sends(self, body: Seq<u8>) -> EncryptedView<T> {
        EncryptedView { write: self.write + packet(body), ..self }
    }

    /// The state with other parameters for a channel.
    pub open spec fn with_channel(self, id: u32, p: ParametersView) -> EncryptedView<T> {
        EncryptedView { channels: self.channels.insert(id, p), ..self }
    }
}

/// The packet that lets the server send `amount` more bytes on its channel.
pub open spec fn window_adjust(recipient_channel: u32, amount: u32) -> Seq<u8> {
    seq![msg::CHANNEL_WINDOW_ADJUST] + crate::buffer::be32(recipient_channel)
        + crate::buffer::be32(amount)
}

/// The part of the window that is left after `n` bytes have come in. Bytes beyond the window
/// are not counted.
pub open spec fn window_left(window: u32, n: u32) -> u32 {
    if n <= window {
        (window - n) as u32
    } else {
        window
    }
}

/// The window of a channel is below half of its target after `n` bytes have come in.
pub open spec fn window_low<T: Transport>(
    e: EncryptedView<T>,
    id: u32,
    n: u32,
    target: u32,
) -> bool {
    e.channels.contains_key(id) && window_left(e.channels[id].sender_window_size, n) < target / 2
}

/// The state after `n` bytes have come in on a channel: they are taken off the window, and a
/// window below half of its target is opened again to the target.
pub open spec fn received<T: Transport>(
    e: EncryptedView<T>,
    id: u32,
    n: u32,
    target: u32,
) -> EncryptedView<T> {
    if e.channels.contains_key(id) {
        let p = e.channels[id];
        let left = window_left(p.sender_window_size, n);
        if window_low(e, id, n, target) {
            e.with_channel(id, ParametersView { sender_window_size: target, ..p }).sends(
                window_adjust(p.recipient_channel, (target - left) as u32),
            )
        } else {
            e.with_channel(id, ParametersView { sender_window_size: left, ..p })
        }
    } else {
        e
    }
}

impl<T: Transport> Encrypted<T> {
    /// Picks the first number after the last one that no channel uses.
    pub fn new_channel_id(&mut self) -> (id: ChannelId)
        requires
            has_free_id(old(self)@.channels.dom()),
        ensures
            id.0 == next_id(old(self)@.channels.dom(), old(self).last_channel_id),
            !old(self)@.channels.contains_key(id.0),
            final(self)@ == (EncryptedView { last_channel_id: id.0, ..old(self)@ }),
    {
        let ghost used = self@.channels.dom();
        let ghost last = self.last_channel_id;
        let ghost free = choose|id: u32| !used.contains(id);
        let ghost mut k: int = 1;
        let mut id: u32 = self.last_channel_id.wrapping_add(1);
        assert(id == id_after(last, 1));
        let ghost mut steps: int = if free >= id {
            free - id
        } else {
            free - id + 0x1_0000_0000
        };
        while self.channels.contains_key(&id)
            invariant
                1 <= k,
                0 <= steps,
                id == id_after(last, k),
                free == id_after(id, steps),
                !used.contains(free),
                used == self@.channels.dom(),
                *self == *old(self),
                forall|j: int| 1 <= j < k ==> used.contains(#[trigger] id_after(last, j)),
            decreases steps,
        {
            let ghost before = id;
            assert(used.contains(id));
            assert(steps != 0);
            id = id.wrapping_add(1);
            proof {
                k = k + 1;
                steps = steps - 1;
            }
        }
        self.last_channel_id = id;
        proof {
            assert(id == id_after(last, k) && !used.contains(id));
            assert(is_next_id(used, last, id));
            lemma_next_id(used, last, id);
        }
        assert(self@ =~= EncryptedView { last_channel_id: id, ..old(self)@ });
        ChannelId(id)
    }

    /// Takes incoming data off the window of a channel, and opens the window again when it is
    /// below half of its target. Returns whether it did the latter.
    pub fn adjust_window_size(&mut self, channel: ChannelId, data: &[u8], target: u32) -> (r: bool)
        requires
            old(self)@.room(13),
        ensures
            r == window_low(old(self)@, channel.0, data@.len() as u32, target),
            final(self)@ == received(old(self)@, channel.0, data@.len() as u32, target),
    {
        let id: u32 = channel.0;
        let n: u32 = data.len() as u32;
        let ghost before = self@;
        match self.channels.remove(&id) {
            Some(p) => {
                let mut p = p;
                assert(before.channels[id] == p@);
                if n <= p.sender_window_size {
                    p.sender_window_size = p.sender_window_size - n;
                }
                let low = p.sender_window_size < target / 2;
                if low {
                    let mut body = CryptoVec::new();
                    body.push(msg::CHANNEL_WINDOW_ADJUST);
                    body.push_u32_be(p.recipient_channel);
                    body.push_u32_be(target - p.sender_window_size);
                    assert(contents(body) =~= window_adjust(
                        p.recipient_channel,
                        (target - p.sender_window_size) as u32,
                    ));
                    push_packet(&mut self.write, &body);
                    p.sender_window_size = target;
                }
                self.channels.insert(id, p);
                assert(self@.channels =~= before.channels.insert(id, p@));
                assert(self@ =~= received(before, id, n, target));
                low
            },
            None => {
                assert(self@.channels =~= before.channels);
                false
            },
        }
    }
}

/// The packets that go straight to the cipher: they are to be sealed, in order and under the keys
/// in use, before the session is handed another packet.
pub struct SSHBuffer {
    /// The packets that are not sealed yet, each with its length in front.
    pub buffer: CryptoVec,
    /// How many bytes have been sent under the current keys.
    pub bytes: usize,
}

/// The part of a session that does not depend on the side.
pub struct CommonSession<T: Transport> {
    pub auth_user: String,
    pub config: Config,
    pub encrypted: Option<Encrypted<T>>,
    pub auth_method: Option<Method<T>>,
    pub write_buffer: SSHBuffer,
    pub cipher: T::Cipher,
    pub buffer: CryptoVec,
}

/// What is seen of a channel and of the encrypted part is what they hold.
pub proof fn law_state_seen<T: Transport>(p: ChannelParameters, e: Encrypted<T>, id: u32)
    ensures
        p@.recipient_channel == p.recipient_channel,
        p@.sender_channel == p.sender_channel,
        p@.recipient_window_size == p.recipient_window_size,
        p@.sender_window_size == p.sender_window_size,
        p@.recipient_maximum_packet_size == p.recipient_maximum_packet_size,
        p@.sender_maximum_packet_size == p.sender_maximum_packet_size,
        p@.confirmed == p.confirmed,
        p@.wants_reply == p.wants_reply,
        p@.pending_data == p.pending_data@,
        e@.state == e.state,
        e@.exchange == e.exchange,
        e@.session_id == e.session_id@,
        e@.rekey == e.rekey,
        e@.last_channel_id == e.last_channel_id,
        e@.write == contents(e.write),
        e@.channels.contains_key(id) == e.channels@.contains_key(id),
        e.channels@.contains_key(id) ==> e@.channels[id] == e.channels@[id]@,
{
}

} // verus!
