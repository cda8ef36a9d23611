//! Channels as their users see them: a queue of messages in each direction, and on top of it a
//! stream of bytes to read and one to write.
//!
//! Sending a message and waiting for one take time. The reader and the writer below hold no
//! queue and no send: each of their methods is one decision between two such waits, and says
//! what to wait for next.
use crate::buffer::{as_slice, buffer_max, buffer_of, contents};
use crate::error::Error;
use crate::session::ChannelId;
use cryptovec::CryptoVec;
use vstd::prelude::*;
use vstd::slice::slice_subrange;

verus! {

/// What a session tells the user of a channel.
#[derive(Debug)]
pub enum ChannelMsg {
    Data { data: CryptoVec },
    ExtendedData { ext: u32, data: CryptoVec },
    Eof,
    XonXoff { client_can_do: bool },
    ExitStatus { exit_status: u32 },
    WindowAdjusted { new_size: u32 },
    Success,
    FlushPendingAck { again: bool },
}

/// What comes through the queue of a channel: a new channel, or a message.
#[derive(Debug)]
pub enum OpenChannelMsg<R> {
    Open { id: ChannelId, max_packet_size: u32, window_size: u32, receiver: Option<R> },
    Msg(ChannelMsg),
}

/// A terminal mode.
#[allow(non_camel_case_types)]
#[derive(Clone, Copy, Debug, PartialEq, Eq, Structural)]
pub enum Pty {
    VERASE,
    IUTF8,
    ECHO,
    VQUIT,
    TTY_OP_ISPEED,
    TTY_OP_OSPEED,
}

/// What the user of a channel tells the session.
#[derive(Debug)]
pub enum Msg {
    WindowChange {
        id: ChannelId,
        col_width: u32,
        row_height: u32,
        pix_width: u32,
        pix_height: u32,
    },
    FlushPending { id: ChannelId },
    Data { id: ChannelId, data: CryptoVec },
    Eof { id: ChannelId },
    Signed { data: CryptoVec },
    RequestPty {
        id: ChannelId,
        want_reply: bool,
        term: String,
        col_width: u32,
        row_height: u32,
        pix_width: u32,
        pix_height: u32,
        terminal_modes: Vec<(Pty, u32)>,
    },
    RequestShell { id: ChannelId, want_reply: bool },
    TcpIpForward { id: ChannelId, want_reply: bool, address: String, port: u32 },
}

/// The way from the user of a channel to the session.
pub struct ChannelSender<S> {
    pub sender: S,
    pub id: ChannelId,
}

/// A channel: its way to the session, its queue, and how much may be sent on it.
pub struct Channel<S, R> {
    pub sender: ChannelSender<S>,
    pub receiver: R,
    pub window_size: u32,
    pub max_packet_size: u32,
}

/// A value that may not be there yet.
pub enum Polled<V> {
    Ready(V),
    Pending,
}

/// The smaller of two numbers.
pub open spec fn least(a: int, b: int) -> int {
    if a <= b {
        a
    } else {
        b
    }
}

/// The bytes of a slice.
fn bytes_of(s: &[u8]) -> (v: Vec<u8>)
    ensures
        v@ == s@,
{
    let mut v: Vec<u8> = Vec::new();
    v.extend_from_slice(s);
    assert(v@ =~= s@);
    v
}

/// The reading side of a channel: what has come in and is not read yet.
pub struct ChannelReader {
    pending_buf: Option<CryptoVec>,
    last_read_size: usize,
}

impl View for ChannelReader {
    type V = Seq<u8>;

    closed spec fn view(&self) -> Seq<u8> {
        match self.pending_buf {
            Some(b) => contents(b).skip(self.last_read_size as int),
            None => Seq::empty(),
        }
    }
}

/// What a reader hands out of what is left of the last message for `remaining` bytes of space,
/// and what it keeps.
pub open spec fn pending_read(unread: Seq<u8>, remaining: usize) -> (Seq<u8>, Seq<u8>) {
    let n = least(unread.len() as int, remaining as int);
    (unread.take(n), unread.skip(n))
}

/// What a reader hands out of the next message for `remaining` bytes of space, and what it keeps
/// of it. Nothing at all is the end of the stream.
pub open spec fn message_read(m: Option<ChannelMsg>, remaining: usize) -> (
    Polled<Seq<u8>>,
    Seq<u8>,
) {
    match m {
        Some(ChannelMsg::Data { data }) => {
            let (out, rest) = pending_read(contents(data), remaining);
            (Polled::Ready(out), rest)
        },
        Some(ChannelMsg::Eof) | Some(ChannelMsg::ExitStatus { .. }) | None => (
            Polled::Ready(Seq::empty()),
            Seq::empty(),
        ),
        Some(_) => (Polled::Pending, Seq::empty()),
    }
}

impl ChannelReader {
    #[verifier::type_invariant]
    spec fn inv(&self) -> bool {
        self.pending_buf matches Some(b) ==> self.last_read_size < contents(b).len()
    }

    /// A reader of a channel on which nothing has come in.
    pub fn new() -> (r: ChannelReader)
        ensures
            r@ == Seq::<u8>::empty(),
    {
        ChannelReader { pending_buf: None, last_read_size: 0 }
    }

    /// Hands out what is left of the last message, as far as it fits `remaining` bytes of space.
    /// If nothing is left, the next message is to be waited for, and `receive` to be called.
    pub fn read_pending(&mut self, remaining: usize) -> (r: Option<Vec<u8>>)
        ensures
            old(self)@.len() == 0 ==> r is None && final(self)@ == old(self)@,
            old(self)@.len() > 0 ==> {
                &&& r is Some
                &&& (r->Some_0@, final(self)@) == pending_read(old(self)@, remaining)
            },
    {
        proof {
            use_type_invariant(&*self);
        }
        let start: usize = self.last_read_size;
        let (out, sendable, all) = match &self.pending_buf {
            Some(pending_buf) => {
                let left: usize = pending_buf.len() - start;
                let sendable: usize = if left <= remaining {
                    left
                } else {
                    remaining
                };
                let out = bytes_of(
                    slice_subrange(as_slice(pending_buf), start, start + sendable),
                );
                assert(out@ =~= old(self)@.take(sendable as int));
                assert(contents(*pending_buf).skip(start + sendable) =~= old(self)@.skip(
                    sendable as int,
                ));
                (out, sendable, sendable == left)
            },
            None => {
                return None;
            },
        };
        if all {
            self.pending_buf = None;
        }
        self.last_read_size = start + sendable;
        assert(self@ =~= old(self)@.skip(sendable as int));
        Some(out)
    }

    /// Hands out the next message, as far as it fits `remaining` bytes of space. `None`: there
    /// will be no more messages.
    pub fn receive(&mut self, m: Option<ChannelMsg>, remaining: usize) -> (r: Polled<Vec<u8>>)
        requires
            old(self)@.len() == 0,
        ensures
            match r {
                Polled::Ready(v) => message_read(m, remaining).0 == Polled::Ready(v@),
                Polled::Pending => message_read(m, remaining).0 == Polled::<Seq<u8>>::Pending,
            },
            final(self)@ == message_read(m, remaining).1,
    {
        proof {
            use_type_invariant(&*self);
            assert(self.pending_buf matches Some(b) ==> self@.len() == contents(b).len()
                - self.last_read_size);
        }
        match m {
            Some(ChannelMsg::Data { data }) => {
                let end: usize = if data.len() <= remaining {
                    data.len()
                } else {
                    remaining
                };
                let out = bytes_of(slice_subrange(as_slice(&data), 0, end));
                assert(out@ =~= contents(data).take(end as int));
                if end < data.len() {
                    self.last_read_size = end;
                    self.pending_buf = Some(data);
                }
                assert(self@ =~= contents(data).skip(end as int));
                Polled::Ready(out)
            },
            Some(ChannelMsg::Eof) => Polled::Ready(Vec::new()),
            Some(ChannelMsg::ExitStatus { .. }) => Polled::Ready(Vec::new()),
            Some(_) => Polled::Pending,
            None => Polled::Ready(Vec::new()),
        }
    }
}

/// How far a send has come.
#[derive(Clone, Copy, Debug, PartialEq, Eq, Structural)]
pub enum SendPoll {
    /// The message is in the session's queue.
    Sent,
    /// The session is gone.
    Failed,
    /// The session's queue is full.
    Waiting,
}

/// What a writer needs next.
pub enum WriterStep<V> {
    /// Start to send a message, in place of any send under way, and see how far it comes.
    Send(Msg),
    /// See how far the send under way has come.
    PollSend,
    /// See whether there is a message for the writer.
    Receive,
    /// Flush first.
    Flush,
    /// Nothing more: this is the answer.
    Return(Polled<Result<V, Error>>),
}

/// The writing side of a channel.
pub struct ChannelWriter<S> {
    pub channel_sender: ChannelSender<S>,
    pub max_packet_size: u32,
    /// How many bytes the other side takes.
    pub window_size: u32,
    /// A send is under way.
    pub sending: bool,
    pub flush_pending: bool,
    /// Nothing has to be flushed before the next write.
    pub write_flushed: bool,
    /// The size of the data that was handed out last.
    pub offered_size: usize,
    /// The size of the data that had to wait for the session last.
    pub pending_buf_size: usize,
}

/// The largest piece of a buffer of `len` bytes that goes into one message: it leaves 64 bytes
/// of a packet free, and does not exceed the window.
pub open spec fn sendable(len: nat, max_packet_size: u32, window_size: u32) -> int {
    least(len as int, least(max_packet_size - 64, window_size as int))
}

/// The writer would start to send data.
pub open spec fn sends_data<S>(w: ChannelWriter<S>) -> bool {
    !w.sending && w.window_size > 0
}

/// What a writer does with a buffer once nothing has to be flushed.
pub open spec fn write_goes_on<S>(
    before: ChannelWriter<S>,
    buf: Seq<u8>,
    after: ChannelWriter<S>,
    r: WriterStep<usize>,
) -> bool {
    if before.sending {
        r == WriterStep::<usize>::PollSend && after == before
    } else if before.window_size == 0 {
        &&& r == WriterStep::<usize>::Return(Polled::Pending)
        &&& after == (ChannelWriter { write_flushed: false, ..before })
    } else {
        let n = sendable(buf.len(), before.max_packet_size, before.window_size);
        &&& r matches WriterStep::Send(Msg::Data { id, data })
        &&& id == before.channel_sender.id
        &&& contents(data) == buf.take(n)
        &&& after == (ChannelWriter { offered_size: n as usize, ..before })
    }
}

/// What becomes of a write that has handed out data.
pub open spec fn sent_at_once<S>(w: ChannelWriter<S>, sent: SendPoll) -> (
    ChannelWriter<S>,
    Polled<Result<usize, Error>>,
) {
    match sent {
        SendPoll::Sent => (w, Polled::Ready(Ok(w.offered_size))),
        SendPoll::Failed => (w, Polled::Ready(Err(Error::SendError))),
        SendPoll::Waiting => (
            ChannelWriter { sending: true, pending_buf_size: w.offered_size, ..w },
            Polled::Pending,
        ),
    }
}

/// What becomes of a write while a send is under way.
pub open spec fn sent_later<S>(w: ChannelWriter<S>, sent: SendPoll) -> (
    ChannelWriter<S>,
    Polled<Result<usize, Error>>,
) {
    match sent {
        SendPoll::Sent => (
            ChannelWriter { sending: false, ..w },
            Polled::Ready(Ok(w.pending_buf_size)),
        ),
        SendPoll::Failed => (w, Polled::Ready(Err(Error::SendError))),
        SendPoll::Waiting => (w, Polled::Pending),
    }
}

/// What a writer makes of a message while it flushes. Nothing at all is the end of the channel.
pub open spec fn flush_message<S>(w: ChannelWriter<S>, m: Option<ChannelMsg>) -> (
    ChannelWriter<S>,
    Polled<()>,
) {
    match m {
        Some(ChannelMsg::WindowAdjusted { new_size }) => (
            ChannelWriter { window_size: new_size, ..w },
            Polled::Pending,
        ),
        Some(ChannelMsg::FlushPendingAck { again }) => (
            ChannelWriter { flush_pending: false, ..w },
            if again {
                Polled::Pending
            } else {
                Polled::Ready(())
            },
        ),
        Some(ChannelMsg::Eof) | Some(ChannelMsg::ExitStatus { .. }) | None => (
            w,
            Polled::Ready(()),
        ),
        Some(_) => (w, Polled::Pending),
    }
}

impl<S> ChannelWriter<S> {
    /// The message that tells the session that the terminal has another size.
    pub fn window_change(
        &self,
        col_width: u32,
        row_height: u32,
        pix_width: u32,
        pix_height: u32,
    ) -> (r: Msg)
        ensures
            r == (Msg::WindowChange {
                id: self.channel_sender.id,
                col_width,
                row_height,
                pix_width,
                pix_height,
            }),
    {
        Msg::WindowChange {
            id: self.channel_sender.id,
            col_width,
            row_height,
            pix_width,
            pix_height,
        }
    }

    /// Starts to flush: the session is asked to report when it has passed everything on. Then
    /// `flush_sent` is to be called, or `flush_received` if there is nothing to send.
    pub fn poll_flush(&mut self) -> (r: WriterStep<()>)
        ensures
            r == (if !old(self).flush_pending {
                WriterStep::<()>::Send(Msg::FlushPending { id: old(self).channel_sender.id })
            } else if old(self).sending {
                WriterStep::<()>::PollSend
            } else {
                WriterStep::<()>::Receive
            }),
            *final(self) == (ChannelWriter {
                sending: old(self).sending || !old(self).flush_pending,
                ..*old(self)
            }),
    {
        if !self.flush_pending {
            self.sending = true;
            return WriterStep::Send(Msg::FlushPending { id: self.channel_sender.id });
        }
        if self.sending {
            WriterStep::PollSend
        } else {
            WriterStep::Receive
        }
    }

    /// Goes on with a flush after the send. Then `flush_received` is to be called.
    pub fn flush_sent(&mut self, sent: SendPoll) -> (r: WriterStep<()>)
        ensures
            r == (match sent {
                SendPoll::Waiting => WriterStep::<()>::Return(Polled::Pending),
                SendPoll::Failed => WriterStep::<()>::Return(
                    Polled::Ready(Err(Error::SendError)),
                ),
                SendPoll::Sent => WriterStep::<()>::Receive,
            }),
            *final(self) == (ChannelWriter {
                sending: old(self).sending && sent != SendPoll::Sent,
                ..*old(self)
            }),
    {
        match sent {
            SendPoll::Waiting => WriterStep::Return(Polled::Pending),
            SendPoll::Failed => WriterStep::Return(Polled::Ready(Err(Error::SendError))),
            SendPoll::Sent => {
                self.sending = false;
                WriterStep::Receive
            },
        }
    }

    /// Ends a flush with what has come in for the writer.
    pub fn flush_received(&mut self, m: Polled<Option<ChannelMsg>>) -> (r: Polled<()>)
        ensures
            match m {
                Polled::Ready(m) => (*final(self), r) == flush_message(*old(self), m),
                Polled::Pending => *final(self) == *old(self) && r == Polled::<()>::Pending,
            },
    {
        match m {
            Polled::Ready(Some(msg)) => match msg {
                ChannelMsg::WindowAdjusted { new_size } => {
                    self.window_size = new_size;
                    Polled::Pending
                },
                ChannelMsg::Eof => Polled::Ready(()),
                ChannelMsg::FlushPendingAck { again } => {
                    self.flush_pending = false;
                    if again {
                        Polled::Pending
                    } else {
                        Polled::Ready(())
                    }
                },
                ChannelMsg::ExitStatus { .. } => Polled::Ready(()),
                _ => Polled::Pending,
            },
            Polled::Ready(None) => Polled::Ready(()),
            Polled::Pending => Polled::Pending,
        }
    }

    /// Whether `poll_write` can be called, and `write_flush_done` after a successful flush: a
    /// packet has room for its 64 bytes of overhead, and a buffer of `len` bytes can be copied.
    pub fn can_write(&self, len: usize) -> (r: bool)
        ensures
            r == (sends_data(*self) ==> self.max_packet_size >= 64 && sendable(
                len as nat,
                self.max_packet_size,
                self.window_size,
            ) <= buffer_max()),
    {
        if self.sending || self.window_size == 0 {
            return true;
        }
        self.max_packet_size >= 64 && self.piece(len) <= crate::buffer::longest()
    }

    /// The size of the largest piece of a buffer of `len` bytes that goes into one message.
    fn piece(&self, len: usize) -> (n: usize)
        requires
            self.max_packet_size >= 64,
        ensures
            n == sendable(len as nat, self.max_packet_size, self.window_size),
    {
        let most: u32 = if self.max_packet_size - 64 <= self.window_size {
            self.max_packet_size - 64
        } else {
            self.window_size
        };
        if len <= most as usize {
            len
        } else {
            most as usize
        }
    }

    /// Goes on with a write once nothing has to be flushed.
    fn write_on(&mut self, buf: &[u8]) -> (r: WriterStep<usize>)
        requires
            sends_data(*old(self)) ==> old(self).max_packet_size >= 64 && sendable(
                buf@.len(),
                old(self).max_packet_size,
                old(self).window_size,
            ) <= buffer_max(),
        ensures
            write_goes_on(*old(self), buf@, *final(self), r),
    {
        if self.sending {
            return WriterStep::PollSend;
        }
        if self.window_size == 0 {
            self.write_flushed = false;
            return WriterStep::Return(Polled::Pending);
        }
        let n: usize = self.piece(buf.len());
        let data = buffer_of(slice_subrange(buf, 0, n));
        self.offered_size = n;
        assert(contents(data) =~= buf@.take(n as int));
        WriterStep::Send(Msg::Data { id: self.channel_sender.id, data })
    }

    /// Starts a write. After `Flush`, `write_flush_done` is to be called, after `PollSend`
    /// `write_pending_sent`, after `Send` `write_sent`.
    pub fn poll_write(&mut self, buf: &[u8]) -> (r: WriterStep<usize>)
        requires
            old(self).write_flushed && sends_data(*old(self)) ==> old(self).max_packet_size >= 64
                && sendable(buf@.len(), old(self).max_packet_size, old(self).window_size)
                <= buffer_max(),
        ensures
            !old(self).write_flushed ==> r == WriterStep::<usize>::Flush && *final(self)
                == *old(self),
            old(self).write_flushed ==> write_goes_on(*old(self), buf@, *final(self), r),
    {
        if !self.write_flushed {
            return WriterStep::Flush;
        }
        self.write_on(buf)
    }

    /// Goes on with a write after the flush in front of it.
    pub fn write_flush_done(&mut self, flushed: Polled<Result<(), Error>>, buf: &[u8]) -> (r:
        WriterStep<usize>)
        requires
            flushed matches Polled::Ready(Ok(_)) ==> (sends_data(*old(self)) ==> {
                &&& old(self).max_packet_size >= 64
                &&& sendable(buf@.len(), old(self).max_packet_size, old(self).window_size)
                    <= buffer_max()
            }),
        ensures
            match flushed {
                Polled::Ready(Ok(())) => write_goes_on(
                    ChannelWriter { write_flushed: true, ..*old(self) },
                    buf@,
                    *final(self),
                    r,
                ),
                Polled::Ready(Err(e)) => r == WriterStep::<usize>::Return(Polled::Ready(Err(e)))
                    && *final(self) == *old(self),
                Polled::Pending => r == WriterStep::<usize>::Return(Polled::Pending)
                    && *final(self) == *old(self),
            },
    {
        match flushed {
            Polled::Ready(Ok(())) => {
                self.write_flushed = true;
                self.write_on(buf)
            },
            Polled::Ready(Err(e)) => WriterStep::Return(Polled::Ready(Err(e))),
            Polled::Pending => WriterStep::Return(Polled::Pending),
        }
    }

    /// Ends a write that has handed out data: `sent` is how far its send has come at once.
    pub fn write_sent(&mut self, sent: SendPoll) -> (r: Polled<Result<usize, Error>>)
        ensures
            (*final(self), r) == sent_at_once(*old(self), sent),
    {
        match sent {
            SendPoll::Sent => Polled::Ready(Ok(self.offered_size)),
            SendPoll::Failed => Polled::Ready(Err(Error::SendError)),
            SendPoll::Waiting => {
                self.sending = true;
                self.pending_buf_size = self.offered_size;
                Polled::Pending
            },
        }
    }

    /// Ends a write while the data of an earlier one is being sent.
    pub fn write_pending_sent(&mut self, sent: SendPoll) -> (r: Polled<Result<usize, Error>>)
        ensures
            (*final(self), r) == sent_later(*old(self), sent),
    {
        match sent {
            SendPoll::Waiting => Polled::Pending,
            SendPoll::Sent => {
                self.sending = false;
                Polled::Ready(Ok(self.pending_buf_size))
            },
            SendPoll::Failed => Polled::Ready(Err(Error::SendError)),
        }
    }

    /// Starts to close the writing side: the session is told that nothing more comes, unless a
    /// send is under way. Then `shutdown_sent` is to be called.
    pub fn poll_shutdown(&mut self) -> (r: WriterStep<()>)
        ensures
            r == (if !old(self).sending {
                WriterStep::<()>::Send(Msg::Eof { id: old(self).channel_sender.id })
            } else {
                WriterStep::<()>::PollSend
            }),
            *final(self) == (ChannelWriter { sending: true, ..*old(self) }),
    {
        if !self.sending {
            self.sending = true;
            WriterStep::Send(Msg::Eof { id: self.channel_sender.id })
        } else {
            WriterStep::PollSend
        }
    }

    /// The answer to the closing of the writing side.
    pub fn shutdown_sent(&self, sent: SendPoll) -> (r: Polled<Result<(), Error>>)
        ensures
            r == (match sent {
                SendPoll::Waiting => Polled::<Result<(), Error>>::Pending,
                SendPoll::Sent => Polled::Ready(Ok(())),
                SendPoll::Failed => Polled::Ready(Err(Error::SendError)),
            }),
    {
        match sent {
            SendPoll::Waiting => Polled::Pending,
            SendPoll::Sent => Polled::Ready(Ok(())),
            SendPoll::Failed => Polled::Ready(Err(Error::SendError)),
        }
    }
}

impl<S: Clone> ChannelWriter<S> {
    /// The way to the session.
    pub fn get_sender(&self) -> (r: S)
        ensures
            cloned(self.channel_sender.sender, r),
    {
        self.channel_sender.sender.clone()
    }
}

/// What can be done with a whole channel.
pub trait ChannelExt<S>: Sized {
    /// A reader and a writer for the channel, and the channel itself, whose messages are to be
    /// relayed to them.
    fn split(self) -> Result<(ChannelReader, ChannelWriter<S>, Self), Error>;

    /// The way to the session.
    fn get_sender(&self) -> S;
}

impl<S: Clone, R> ChannelExt<S> for Channel<S, R> {
    fn split(self) -> (r: Result<(ChannelReader, ChannelWriter<S>, Channel<S, R>), Error>)
        ensures
            r matches Ok((reader, writer, channel)) && {
                &&& reader@ == Seq::<u8>::empty()
                &&& cloned(self.sender.sender, writer.channel_sender.sender)
                &&& writer == (ChannelWriter {
                    channel_sender: ChannelSender {
                        sender: writer.channel_sender.sender,
                        id: self.sender.id,
                    },
                    max_packet_size: self.max_packet_size,
                    window_size: self.window_size,
                    sending: false,
                    flush_pending: false,
                    write_flushed: true,
                    offered_size: 0,
                    pending_buf_size: 0,
                })
                &&& channel == self
            },
    {
        let writer = ChannelWriter {
            channel_sender: ChannelSender {
                sender: self.sender.sender.clone(),
                id: self.sender.id,
            },
            max_packet_size: self.max_packet_size,
            window_size: self.window_size,
            sending: false,
            flush_pending: false,
            write_flushed: true,
            offered_size: 0,
            pending_buf_size: 0,
        };
        Ok((ChannelReader::new(), writer, self))
    }

    fn get_sender(&self) -> (r: S)
        ensures
            cloned(self.sender.sender, r),
    {
        self.sender.sender.clone()
    }
}

/// One of the two sides of a split channel.
#[derive(Clone, Copy, Debug, PartialEq, Eq, Structural)]
pub enum Side {
    Reader,
    Writer,
}

/// A message for one side of a split channel, and what to say if that side is gone.
pub struct Relay {
    pub to: Side,
    pub msg: ChannelMsg,
    pub context: &'static str,
}

/// The message is one that a split channel knows what to do with.
pub open spec fn relayable<R>(m: OpenChannelMsg<R>) -> bool {
    m matches OpenChannelMsg::Msg(msg) && !(msg is ExtendedData) && !(msg is XonXoff) && !(
    msg is Success)
}

/// What the sides of a split channel are told, in order, of a message.
pub open spec fn relayed<R>(m: OpenChannelMsg<R>) -> Seq<Relay> {
    match m {
        OpenChannelMsg::Msg(msg) => match msg {
            ChannelMsg::Data { .. } => seq![
                Relay { to: Side::Reader, msg, context: "relay data to reader failed" },
            ],
            ChannelMsg::Eof => seq![
                Relay { to: Side::Reader, msg, context: "relay eof to reader failed" },
                Relay { to: Side::Writer, msg, context: "relay eof to writer failed" },
            ],
            ChannelMsg::WindowAdjusted { .. } => seq![
                Relay {
                    to: Side::Writer,
                    msg,
                    context: "relay window adjusted msg to writer failed",
                },
            ],
            ChannelMsg::FlushPendingAck { .. } => seq![
                Relay {
                    to: Side::Writer,
                    msg,
                    context: "relay flush pending ack to writer failed",
                },
            ],
            ChannelMsg::ExitStatus { .. } => seq![
                Relay { to: Side::Reader, msg, context: "relay exit status to reader failed" },
                Relay { to: Side::Writer, msg, context: "relay exit status to writer failed" },
            ],
            _ => Seq::empty(),
        },
        OpenChannelMsg::Open { .. } => Seq::empty(),
    }
}

/// Whether a split channel knows what to do with a message.
pub fn can_relay<R>(m: &OpenChannelMsg<R>) -> (r: bool)
    ensures
        r == relayable(*m),
{
    match m {
        OpenChannelMsg::Msg(msg) => match msg {
            ChannelMsg::ExtendedData { .. } => false,
            ChannelMsg::XonXoff { .. } => false,
            ChannelMsg::Success => false,
            _ => true,
        },
        OpenChannelMsg::Open { .. } => false,
    }
}

/// What the sides of a split channel are told, in order, of a message.
pub fn relay_msg<R>(m: OpenChannelMsg<R>) -> (r: Vec<Relay>)
    requires
        relayable(m),
    ensures
        r@ == relayed(m),
{
    let mut r: Vec<Relay> = Vec::new();
    if let OpenChannelMsg::Msg(msg) = m {
        match msg {
            ChannelMsg::Data { data } => {
                r.push(
                    Relay {
                        to: Side::Reader,
                        msg: ChannelMsg::Data { data },
                        context: "relay data to reader failed",
                    },
                );
            },
            ChannelMsg::Eof => {
                r.push(
                    Relay {
                        to: Side::Reader,
                        msg: ChannelMsg::Eof,
                        context: "relay eof to reader failed",
                    },
                );
                r.push(
                    Relay {
                        to: Side::Writer,
                        msg: ChannelMsg::Eof,
                        context: "relay eof to writer failed",
                    },
                );
            },
            ChannelMsg::WindowAdjusted { new_size } => {
                r.push(
                    Relay {
                        to: Side::Writer,
                        msg: ChannelMsg::WindowAdjusted { new_size },
                        context: "relay window adjusted msg to writer failed",
                    },
                );
            },
            ChannelMsg::FlushPendingAck { again } => {
                r.push(
                    Relay {
                        to: Side::Writer,
                        msg: ChannelMsg::FlushPendingAck { again },
                        context: "relay flush pending ack to writer failed",
                    },
                );
            },
            ChannelMsg::ExitStatus { exit_status } => {
                r.push(
                    Relay {
                        to: Side::Reader,
                        msg: ChannelMsg::ExitStatus { exit_status },
                        context: "relay exit status to reader failed",
                    },
                );
                r.push(
                    Relay {
                        to: Side::Writer,
                        msg: ChannelMsg::ExitStatus { exit_status },
                        context: "relay exit status to writer failed",
                    },
                );
            },
            _ => {},
        }
    }
    assert(r@ =~= relayed(m));
    r
}

/// One poll of a reader: how much space there is, and what the queue would give.
pub struct ReadPoll {
    pub remaining: usize,
    pub next: Polled<Option<ChannelMsg>>,
}

/// What one poll takes out of the queue: the data of the next message, unless something is left
/// of the last one.
pub open spec fn poll_takes(unread: Seq<u8>, p: ReadPoll) -> Seq<u8> {
    if unread.len() > 0 {
        Seq::empty()
    } else {
        match p.next {
            Polled::Ready(Some(ChannelMsg::Data { data })) => contents(data),
            _ => Seq::empty(),
        }
    }
}

/// What one poll hands out, and what is unread after it.
pub open spec fn poll_reads(unread: Seq<u8>, p: ReadPoll) -> (Seq<u8>, Seq<u8>) {
    if unread.len() > 0 {
        pending_read(unread, p.remaining)
    } else {
        match p.next {
            Polled::Ready(m) => match message_read(m, p.remaining) {
                (Polled::Ready(out), rest) => (out, rest),
                (Polled::Pending, rest) => (Seq::empty(), rest),
            },
            Polled::Pending => (Seq::empty(), unread),
        }
    }
}

/// What a sequence of polls takes out of the queue, what it hands out, and what is unread after
/// it.
pub open spec fn polls_read(unread: Seq<u8>, polls: Seq<ReadPoll>) -> (
    Seq<u8>,
    Seq<u8>,
    Seq<u8>,
)
    decreases polls.len(),
{
    if polls.len() == 0 {
        (Seq::empty(), Seq::empty(), unread)
    } else {
        let (taken, out, rest) = polls_read(unread, polls.drop_last());
        let (more, left) = poll_reads(rest, polls.last());
        (taken + poll_takes(rest, polls.last()), out + more, left)
    }
}

/// A reader hands out the bytes that came in, in order, none twice and none left out: what it
/// has handed out and what is unread are what was unread and what came in.
pub proof fn law_read_in_order(unread: Seq<u8>, polls: Seq<ReadPoll>)
    ensures
        ({
            let (taken, out, rest) = polls_read(unread, polls);
            out + rest == unread + taken
        }),
    decreases polls.len(),
{
    if polls.len() == 0 {
        assert(Seq::<u8>::empty() + unread =~= unread + Seq::<u8>::empty());
    } else {
        law_read_in_order(unread, polls.drop_last());
        let (taken, out, rest) = polls_read(unread, polls.drop_last());
        let p = polls.last();
        let (more, left) = poll_reads(rest, p);
        assert(more + left =~= rest + poll_takes(rest, p));
        assert((out + more) + left =~= out + (more + left));
        assert(out + (rest + poll_takes(rest, p)) =~= (out + rest) + poll_takes(rest, p));
        assert((unread + taken) + poll_takes(rest, p) =~= unread + (taken + poll_takes(rest, p)));
    }
}

/// A reader hands out no more than there is space for.
pub proof fn law_read_fits(unread: Seq<u8>, p: ReadPoll)
    ensures
        poll_reads(unread, p).0.len() <= p.remaining,
{
}

/// The data that a writer hands out for its channel is the front of the buffer, within the window
/// and within a packet less its overhead, and as long as these allow; it is not empty if the
/// buffer is not and a packet holds more than the overhead.
pub proof fn law_write_within_limits<S>(
    before: ChannelWriter<S>,
    buf: Seq<u8>,
    after: ChannelWriter<S>,
    id: ChannelId,
    data: CryptoVec,
)
    requires
        before.max_packet_size >= 64,
        write_goes_on(before, buf, after, WriterStep::Send(Msg::Data { id, data })),
    ensures
        contents(data).is_prefix_of(buf),
        contents(data).len() <= before.window_size,
        contents(data).len() + 64 <= before.max_packet_size,
        contents(data).len() == buf.len() || contents(data).len() == before.window_size
            || contents(data).len() + 64 == before.max_packet_size,
        id == before.channel_sender.id,
        after == (ChannelWriter { offered_size: after.offered_size, ..before }),
        buf.len() > 0 && before.max_packet_size > 64 ==> contents(data).len() > 0,
{
}

/// The data that a writer hands out when a buffer is written whole, each write going on where the
/// last one ended.
pub open spec fn pieces(buf: Seq<u8>, max_packet_size: u32, window_size: u32) -> Seq<Seq<u8>>
    decreases buf.len(),
{
    let n = sendable(buf.len(), max_packet_size, window_size);
    if 0 < n <= buf.len() {
        seq![buf.take(n)] + pieces(buf.skip(n), max_packet_size, window_size)
    } else {
        Seq::empty()
    }
}

/// Pieces one after the other.
pub open spec fn joined(pieces: Seq<Seq<u8>>) -> Seq<u8>
    decreases pieces.len(),
{
    if pieces.len() == 0 {
        Seq::empty()
    } else {
        pieces[0] + joined(pieces.skip(1))
    }
}

/// A buffer that is written whole is handed out whole, in order, in pieces within the window and
/// within a packet less its overhead.
pub proof fn law_written_whole(buf: Seq<u8>, max_packet_size: u32, window_size: u32)
    requires
        max_packet_size > 64,
        window_size > 0,
    ensures
        joined(pieces(buf, max_packet_size, window_size)) == buf,
        forall|i: int|
            0 <= i < pieces(buf, max_packet_size, window_size).len() ==> {
                let piece = #[trigger] pieces(buf, max_packet_size, window_size)[i];
                0 < piece.len() <= window_size && piece.len() + 64 <= max_packet_size
            },
    decreases buf.len(),
{
    let n = sendable(buf.len(), max_packet_size, window_size);
    if buf.len() > 0 {
        let rest = pieces(buf.skip(n), max_packet_size, window_size);
        let all = pieces(buf, max_packet_size, window_size);
        law_written_whole(buf.skip(n), max_packet_size, window_size);
        assert(all == seq![buf.take(n)] + rest);
        assert(all.skip(1) =~= rest);
        assert(buf.take(n) + buf.skip(n) =~= buf);
        assert forall|i: int| 0 <= i < all.len() implies {
            let piece = #[trigger] all[i];
            0 < piece.len() <= window_size && piece.len() + 64 <= max_packet_size
        } by {
            if i > 0 {
                assert(all[i] == rest[i - 1]);
            }
        }
    } else {
        assert(joined(pieces(buf, max_packet_size, window_size)) =~= buf);
    }
}

/// A write reports the size of the data that it has handed out, whether it was sent at once or
/// had to wait; while it waits, no other data is handed out.
pub proof fn law_write_reported<S>(
    before: ChannelWriter<S>,
    buf: Seq<u8>,
    after: ChannelWriter<S>,
    id: ChannelId,
    data: CryptoVec,
    other: Seq<u8>,
    later: ChannelWriter<S>,
    step: WriterStep<usize>,
)
    requires
        before.max_packet_size >= 64,
        buf.len() <= usize::MAX,
        write_goes_on(before, buf, after, WriterStep::Send(Msg::Data { id, data })),
        write_goes_on(sent_at_once(after, SendPoll::Waiting).0, other, later, step),
    ensures
        sent_at_once(after, SendPoll::Sent).1 == Polled::Ready(
            Ok::<usize, Error>(contents(data).len() as usize),
        ),
        contents(data).len() as usize == contents(data).len(),
        step == WriterStep::<usize>::PollSend,
        sent_later(later, SendPoll::Sent).1 == Polled::Ready(
            Ok::<usize, Error>(contents(data).len() as usize),
        ),
        !sent_later(later, SendPoll::Sent).0.sending,
{
}

/// With a closed window a writer hands nothing out and flushes before the next write; the window
/// that the flush learns of is the one that the next write keeps to.
pub proof fn law_closed_window<S>(
    before: ChannelWriter<S>,
    buf: Seq<u8>,
    after: ChannelWriter<S>,
    step: WriterStep<usize>,
    new_size: u32,
)
    requires
        !before.sending,
        before.window_size == 0,
        write_goes_on(before, buf, after, step),
    ensures
        step == WriterStep::<usize>::Return(Polled::Pending),
        !after.write_flushed,
        flush_message(after, Some(ChannelMsg::WindowAdjusted { new_size })).0.window_size
            == new_size,
{
}

/// Whatever the window of a writer was, news of the window during a flush set it: the window is
/// then the one that the news gives, and data that is handed out next keeps to it and goes as far
/// as it, the packet and the buffer allow.
pub proof fn law_window_set_by_news<S>(
    w: ChannelWriter<S>,
    new_size: u32,
    buf: Seq<u8>,
    after: ChannelWriter<S>,
    id: ChannelId,
    data: CryptoVec,
)
    requires
        w.max_packet_size >= 64,
        write_goes_on(
            flush_message(w, Some(ChannelMsg::WindowAdjusted { new_size })).0,
            buf,
            after,
            WriterStep::Send(Msg::Data { id, data }),
        ),
    ensures
        flush_message(w, Some(ChannelMsg::WindowAdjusted { new_size })).0.window_size == new_size,
        contents(data).is_prefix_of(buf),
        contents(data).len() <= new_size,
        contents(data).len() == buf.len() || contents(data).len() == new_size || contents(
            data,
        ).len() + 64 == w.max_packet_size,
{
}

/// What a flush learns: news of the window set the window and nothing else, and the flush goes on;
/// an acknowledgement ends the flush unless another one is to follow; the end of the channel ends
/// it; and any other message is passed over. Nothing but these changes the writer.
pub proof fn law_flush_learns<S>(w: ChannelWriter<S>, m: Option<ChannelMsg>)
    ensures
        ({
            let (after, done) = flush_message(w, m);
            &&& m matches Some(ChannelMsg::WindowAdjusted { new_size }) ==> after == (
            ChannelWriter { window_size: new_size, ..w }) && done is Pending
            &&& m matches Some(ChannelMsg::FlushPendingAck { again }) ==> after == (
            ChannelWriter { flush_pending: false, ..w }) && (done is Ready <==> !again)
            &&& m is None || m matches Some(ChannelMsg::Eof) || (
            m matches Some(ChannelMsg::ExitStatus { .. })) ==> after == w && done is Ready
            &&& (m matches Some(ChannelMsg::Data { .. })) || (
            m matches Some(ChannelMsg::ExtendedData { .. })) || (
            m matches Some(ChannelMsg::XonXoff { .. })) || (m matches Some(ChannelMsg::Success))
                ==> after == w && done is Pending
        }),
{
}

/// While a send is under way a writer hands nothing out and stays as it is.
pub proof fn law_write_waits_for_send<S>(
    before: ChannelWriter<S>,
    buf: Seq<u8>,
    after: ChannelWriter<S>,
    step: WriterStep<usize>,
)
    requires
        before.sending,
        write_goes_on(before, buf, after, step),
    ensures
        step == WriterStep::<usize>::PollSend,
        after == before,
{
}

/// With an open window and no send under way a writer hands data out, whatever the buffer.
pub proof fn law_open_window_writes<S>(
    before: ChannelWriter<S>,
    buf: Seq<u8>,
    after: ChannelWriter<S>,
    step: WriterStep<usize>,
)
    requires
        !before.sending,
        before.window_size > 0,
        write_goes_on(before, buf, after, step),
    ensures
        step matches WriterStep::Send(Msg::Data { .. }),
{
}

/// What becomes of data that was handed out: sent at once, the writer stays as it is; if it has to
/// wait, the writer notes that a send is under way and how much it sends; a lost session is an
/// error. While it waits nothing changes, and once it is sent no send is under way.
pub proof fn law_sends_noted<S>(w: ChannelWriter<S>)
    ensures
        sent_at_once(w, SendPoll::Sent).0 == w,
        sent_at_once(w, SendPoll::Failed) == (
            w,
            Polled::Ready(Err::<usize, Error>(Error::SendError)),
        ),
        sent_at_once(w, SendPoll::Waiting) == (
            ChannelWriter { sending: true, pending_buf_size: w.offered_size, ..w },
            Polled::<Result<usize, Error>>::Pending,
        ),
        sent_later(w, SendPoll::Sent).0 == (ChannelWriter { sending: false, ..w }),
        sent_later(w, SendPoll::Failed) == (
            w,
            Polled::Ready(Err::<usize, Error>(Error::SendError)),
        ),
        sent_later(w, SendPoll::Waiting) == (w, Polled::<Result<usize, Error>>::Pending),
{
}

/// A reader hands out as much as there is and fits, and takes nothing out of the queue while
/// something is left of the last message.
pub proof fn law_read_as_much_as_fits(unread: Seq<u8>, p: ReadPoll)
    ensures
        ({
            let (out, rest) = poll_reads(unread, p);
            &&& unread.len() > 0 ==> poll_takes(unread, p) == Seq::<u8>::empty() && (out == unread
                || out.len() == p.remaining)
            &&& unread.len() == 0 ==> out == poll_takes(unread, p) || out.len() == p.remaining
            &&& p.next matches Polled::Ready(Some(ChannelMsg::Data { data })) ==> (unread.len()
                == 0 ==> poll_takes(unread, p) == contents(data))
        }),
{
    let (out, rest) = poll_reads(unread, p);
    if unread.len() > 0 {
        assert(out == unread || out.len() == p.remaining) by {
            assert(unread.take(unread.len() as int) =~= unread);
        }
    } else {
        if let Polled::Ready(Some(ChannelMsg::Data { data })) = p.next {
            assert(contents(data).take(contents(data).len() as int) =~= contents(data));
        }
    }
}

/// Data is read at once, and the end of a channel, by its own message, by the exit of the process
/// or by the end of the queue, is an empty read; after any other message the next one is waited
/// for.
pub proof fn law_reader_told_of_end(m: Option<ChannelMsg>, remaining: usize)
    ensures
        ({
            let (out, rest) = message_read(m, remaining);
            &&& m is None || m matches Some(ChannelMsg::Eof) || (
            m matches Some(ChannelMsg::ExitStatus { .. })) ==> out == Polled::Ready(
                Seq::<u8>::empty(),
            ) && rest == Seq::<u8>::empty()
            &&& m matches Some(ChannelMsg::Data { data }) ==> out is Ready && out->Ready_0 + rest
                == contents(data) && out->Ready_0.len() <= remaining && (rest.len() == 0
                || out->Ready_0.len() == remaining)
            &&& (m matches Some(ChannelMsg::WindowAdjusted { .. })) || (
            m matches Some(ChannelMsg::ExtendedData { .. })) || (
            m matches Some(ChannelMsg::XonXoff { .. })) || (m matches Some(ChannelMsg::Success))
                || (m matches Some(ChannelMsg::FlushPendingAck { .. })) ==> out is Pending && rest
                == Seq::<u8>::empty()
        }),
{
    if let Some(ChannelMsg::Data { data }) = m {
        let (out, rest) = message_read(m, remaining);
        assert(out->Ready_0 + rest =~= contents(data));
    }
}

/// A split channel passes messages on as they are: data to the reader alone, news of the window
/// and of a flush to the writer alone, and both sides learn of the end.
pub proof fn law_relayed<R>(m: OpenChannelMsg<R>)
    requires
        relayable(m),
    ensures
        relayed(m).len() > 0,
        forall|i: int|
            0 <= i < relayed(m).len() ==> OpenChannelMsg::<R>::Msg(
                (#[trigger] relayed(m)[i]).msg,
            ) == m,
        m->Msg_0 is Data ==> relayed(m).len() == 1 && relayed(m)[0].to == Side::Reader,
        m->Msg_0 is WindowAdjusted || m->Msg_0 is FlushPendingAck ==> relayed(m).len() == 1
            && relayed(m)[0].to == Side::Writer,
        m->Msg_0 is Eof || m->Msg_0 is ExitStatus ==> relayed(m).len() == 2 && relayed(m)[0].to
            == Side::Reader && relayed(m)[1].to == Side::Writer,
{
}

/// What is said when a side of a split channel is gone names the message and that side.
pub proof fn law_relay_context<R>(m: OpenChannelMsg<R>, i: int)
    requires
        relayable(m),
        0 <= i < relayed(m).len(),
    ensures
        ({
            let relay = relayed(m)[i];
            relay.context@ == (match (relay.msg, relay.to) {
                (ChannelMsg::Data { .. }, _) => "relay data to reader failed"@,
                (ChannelMsg::WindowAdjusted { .. }, _) => {
                    "relay window adjusted msg to writer failed"@
                },
                (ChannelMsg::FlushPendingAck { .. }, _) => {
                    "relay flush pending ack to writer failed"@
                },
                (ChannelMsg::Eof, Side::Reader) => "relay eof to reader failed"@,
                (ChannelMsg::Eof, Side::Writer) => "relay eof to writer failed"@,
                (_, Side::Reader) => "relay exit status to reader failed"@,
                (_, Side::Writer) => "relay exit status to writer failed"@,
            })
        }),
{
}

/// The messages that a split channel can pass on: data, the end, the exit of a process, and news
/// of the window and of a flush.
pub proof fn law_relayable<R>(m: OpenChannelMsg<R>)
    ensures
        relayable(m) <==> m is Msg && (m->Msg_0 is Data || m->Msg_0 is Eof || m->Msg_0 is ExitStatus
            || m->Msg_0 is WindowAdjusted || m->Msg_0 is FlushPendingAck),
{
}

/// What the sides of a split channel are told, in order, of a list of messages.
pub open spec fn relayed_all<R>(ms: Seq<OpenChannelMsg<R>>) -> Seq<Relay>
    decreases ms.len(),
{
    if ms.len() == 0 {
        Seq::empty()
    } else {
        relayed_all(ms.drop_last()) + relayed(ms.last())
    }
}

/// The messages for one side.
pub open spec fn told(relays: Seq<Relay>, side: Side) -> Seq<ChannelMsg>
    decreases relays.len(),
{
    if relays.len() == 0 {
        Seq::empty()
    } else {
        let before = told(relays.drop_last(), side);
        if relays.last().to == side {
            before.push(relays.last().msg)
        } else {
            before
        }
    }
}

/// The messages that concern a side: the reader wants data, the writer news of the window and of
/// a flush, and both the end.
pub open spec fn concerns(msg: ChannelMsg, side: Side) -> bool {
    match msg {
        ChannelMsg::Data { .. } => side == Side::Reader,
        ChannelMsg::WindowAdjusted { .. } | ChannelMsg::FlushPendingAck { .. } => side
            == Side::Writer,
        ChannelMsg::Eof | ChannelMsg::ExitStatus { .. } => true,
        _ => false,
    }
}

/// What one side is told first and what it is told later make up what it is told.
proof fn lemma_told_add(first: Seq<Relay>, later: Seq<Relay>, side: Side)
    ensures
        told(first + later, side) == told(first, side) + told(later, side),
    decreases later.len(),
{
    if later.len() == 0 {
        assert(first + later =~= first);
        assert(told(first, side) + told(later, side) =~= told(first, side));
    } else {
        lemma_told_add(first, later.drop_last(), side);
        assert((first + later).drop_last() =~= first + later.drop_last());
        assert((first + later).last() == later.last());
        assert(told(first + later, side) =~= told(first, side) + told(later, side));
    }
}

/// One message is passed to a side that it concerns, and not to another.
proof fn lemma_told_one<R>(m: OpenChannelMsg<R>, side: Side)
    requires
        relayable(m),
    ensures
        told(relayed(m), side) == (if concerns(m->Msg_0, side) {
            seq![m->Msg_0]
        } else {
            Seq::empty()
        }),
{
    let relays = relayed(m);
    reveal_with_fuel(told, 3);
    assert(relays.drop_last().len() == relays.len() - 1);
    assert(told(relays, side) =~= if concerns(m->Msg_0, side) {
        seq![m->Msg_0]
    } else {
        Seq::empty()
    });
}

/// Over any list of messages, each side of a split channel is told exactly the messages that
/// concern it, as they are and in order: the reader the data and the end, the writer the news of
/// the window and of a flush and the end.
pub proof fn law_relayed_in_order<R>(ms: Seq<OpenChannelMsg<R>>, side: Side)
    requires
        forall|i: int| 0 <= i < ms.len() ==> relayable(#[trigger] ms[i]),
    ensures
        told(relayed_all(ms), side) == ms.map_values(
            |m: OpenChannelMsg<R>| m->Msg_0,
        ).filter(|msg: ChannelMsg| concerns(msg, side)),
    decreases ms.len(),
{
    let inner = |m: OpenChannelMsg<R>| m->Msg_0;
    let wanted = |msg: ChannelMsg| concerns(msg, side);
    let all = ms.map_values(inner);
    reveal(Seq::filter);
    if ms.len() == 0 {
        assert(all.filter(wanted) =~= Seq::<ChannelMsg>::empty());
    } else {
        let front = ms.drop_last();
        assert forall|i: int| 0 <= i < front.len() implies relayable(#[trigger] front[i]) by {
            assert(front[i] == ms[i]);
        }
        law_relayed_in_order(front, side);
        assert(relayable(ms[ms.len() - 1]));
        lemma_told_add(relayed_all(front), relayed(ms.last()), side);
        lemma_told_one(ms.last(), side);
        assert(all.drop_last() =~= front.map_values(inner));
        assert(all.last() == ms.last()->Msg_0);
        assert(told(relayed_all(ms), side) =~= all.filter(wanted));
    }
}

} // verus!
