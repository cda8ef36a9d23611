//! Tunnels: connections that a server accepts for the client and passes on over channels.
use crate::client::channel::{joined, Channel, ChannelSender, Msg, OpenChannelMsg, Polled};
use vstd::prelude::*;
use vstd::slice::slice_subrange;

verus! {

/// The user of a session that only serves to forward connections.
pub struct TunnelClient {}

impl TunnelClient {
    /// A user of a session.
    pub fn new() -> (r: TunnelClient)
        ensures
            r == (TunnelClient {  }),
    {
        TunnelClient {  }
    }

    /// Whether the key of a server is trusted: every key is.
    pub fn check_server_key(&self) -> (r: bool)
        ensures
            r,
    {
        true
    }
}

/// What is passed on of a buffer into which `n` bytes were read: these bytes, or nothing at the
/// end of the stream.
pub open spec fn chunk_of(buf: Seq<u8>, n: usize) -> Option<Seq<u8>> {
    if n == 0 {
        None
    } else {
        Some(buf.take(n as int))
    }
}

/// What to pass on of a buffer into which `n` bytes were read. After `None` nothing more is to be
/// read.
pub fn copy_chunk<'a>(buf: &'a [u8], n: usize) -> (r: Option<&'a [u8]>)
    requires
        n <= buf@.len(),
    ensures
        match r {
            Some(chunk) => chunk_of(buf@, n) == Some(chunk@),
            None => chunk_of(buf@, n) == None::<Seq<u8>>,
        },
{
    if n == 0 {
        return None;
    }
    assert(buf@.take(n as int) =~= buf@.subrange(0, n as int));
    Some(slice_subrange(buf, 0, n))
}

/// A channel over which a server announces the connections to a forwarded port.
pub struct RemoteForwardListener<S, R> {
    pub channel: Channel<S, R>,
}

/// The next connection can be taken out of what came through the queue: a new channel comes
/// with its own queue.
pub open spec fn has_receiver<R>(m: Polled<Option<OpenChannelMsg<R>>>) -> bool {
    m matches Polled::Ready(Some(OpenChannelMsg::Open { receiver, .. })) ==> receiver is Some
}

/// Whether a new channel comes with its own queue.
pub fn comes_with_receiver<R>(m: &Polled<Option<OpenChannelMsg<R>>>) -> (r: bool)
    ensures
        r == has_receiver(*m),
{
    match m {
        Polled::Ready(Some(OpenChannelMsg::Open { receiver, .. })) => receiver.is_some(),
        _ => true,
    }
}

impl<S: Clone, R> RemoteForwardListener<S, R> {
    /// The next connection, given what came through the queue: a channel of its own for each.
    pub fn poll_next(&self, m: Polled<Option<OpenChannelMsg<R>>>) -> (r: Polled<
        Option<Channel<S, R>>,
    >)
        requires
            has_receiver(m),
        ensures
            match m {
                Polled::Pending => r == Polled::<Option<Channel<S, R>>>::Pending,
                Polled::Ready(None) => r == Polled::<Option<Channel<S, R>>>::Ready(None),
                Polled::Ready(Some(OpenChannelMsg::Msg(_))) => r == Polled::<
                    Option<Channel<S, R>>,
                >::Pending,
                Polled::Ready(
                    Some(OpenChannelMsg::Open { id, max_packet_size, window_size, receiver }),
                ) => {
                    &&& r matches Polled::Ready(Some(channel))
                    &&& cloned(self.channel.sender.sender, channel.sender.sender)
                    &&& channel.sender.id == id
                    &&& channel.receiver == receiver->Some_0
                    &&& channel.window_size == window_size
                    &&& channel.max_packet_size == max_packet_size
                },
            },
    {
        match m {
            Polled::Pending => Polled::Pending,
            Polled::Ready(Some(msg)) => match msg {
                OpenChannelMsg::Open { id, max_packet_size, window_size, receiver } => {
                    Polled::Ready(
                        Some(
                            Channel {
                                sender: ChannelSender {
                                    sender: self.channel.sender.sender.clone(),
                                    id,
                                },
                                receiver: receiver.unwrap(),
                                window_size,
                                max_packet_size,
                            },
                        ),
                    )
                },
                OpenChannelMsg::Msg(_) => Polled::Pending,
            },
            Polled::Ready(None) => Polled::Ready(None),
        }
    }
}

/// Lets a channel listen for the connections to a port of the server: the message is to be
/// sent.
pub fn upgrade_to_remote_forward_tcpip_listener<S, R>(
    channel: Channel<S, R>,
    address: String,
    port: u32,
) -> (r: (RemoteForwardListener<S, R>, Msg))
    ensures
        r.0 == (RemoteForwardListener { channel }),
        r.1 == (Msg::TcpIpForward { id: channel.sender.id, want_reply: false, address, port }),
{
    let m = Msg::TcpIpForward { id: channel.sender.id, want_reply: false, address, port };
    (RemoteForwardListener { channel }, m)
}

/// What is passed on of a sequence of reads, each a buffer and how many bytes were read into it.
/// The first empty read ends it.
pub open spec fn copied(reads: Seq<(Seq<u8>, usize)>) -> Seq<u8>
    decreases reads.len(),
{
    if reads.len() == 0 {
        Seq::empty()
    } else {
        match chunk_of(reads[0].0, reads[0].1) {
            Some(chunk) => chunk + copied(reads.skip(1)),
            None => Seq::empty(),
        }
    }
}

/// A copy passes on the bytes of every read up to the first empty one, in order, and nothing
/// after it.
pub proof fn law_copied_in_order(reads: Seq<(Seq<u8>, usize)>, count: int)
    requires
        0 <= count <= reads.len(),
        forall|i: int| 0 <= i < count ==> (#[trigger] reads[i]).1 > 0,
        count < reads.len() ==> reads[count].1 == 0,
    ensures
        copied(reads) == joined(
            reads.take(count).map_values(|read: (Seq<u8>, usize)| read.0.take(read.1 as int)),
        ),
    decreases count,
{
    let bytes = |read: (Seq<u8>, usize)| read.0.take(read.1 as int);
    let chunks = reads.take(count).map_values(bytes);
    if count > 0 {
        let rest = reads.skip(1);
        assert(reads[0].1 > 0);
        assert forall|i: int| 0 <= i < count - 1 implies (#[trigger] rest[i]).1 > 0 by {
            assert(rest[i] == reads[i + 1]);
        }
        law_copied_in_order(rest, count - 1);
        assert(chunks.skip(1) =~= rest.take(count - 1).map_values(bytes));
        assert(chunks[0] == reads[0].0.take(reads[0].1 as int));
    }
}

/// Only a new channel without a queue cannot be taken.
pub proof fn law_queue_needed<R>(m: Polled<Option<OpenChannelMsg<R>>>)
    ensures
        !has_receiver(m) <==> m is Ready && m->Ready_0 is Some && m->Ready_0->Some_0 is Open
            && m->Ready_0->Some_0->receiver is None,
{
}

} // verus!
