//! What the packets of a server do to an authenticated session, said of the bytes of each packet:
//! the numbers and strings that stand in it, what the user is told, and what changes.
use crate::address::{ip_named, lossy};
use crate::buffer::be32;
use crate::client::encrypted::{handled, read_authenticated, read_encrypted};
use crate::client::{CallbackView, SessionView, StepView};
use crate::encoding::{packet, ssh_string, string_at, u32_at};
use crate::error::Error;
use crate::msg;
use crate::names::{number_of, sig_named, ChannelOpenFailure};
use crate::packet::{open_kind_at, parse, past, request_at, OpenKindView, PacketView, RequestView};
use crate::session::{
    received, window_low, ChannelId, EncryptedState, EncryptedView, ParametersView, Transport,
};
use vstd::prelude::*;
use vstd::string::StringSliceAdditionalSpecFns;
use vstd::utf8::{decode_utf8, valid_utf8};

verus! {

/// The session is authenticated, and no key exchange waits for its next packet.
pub open spec fn serves<T: Transport>(s: SessionView<T>, e: EncryptedView<T>) -> bool {
    &&& s.encrypted == Some(e)
    &&& e.state == EncryptedState::Authenticated
    &&& e.rekey matches Some(kex) ==> kex is KexInit
}

/// The packet ends too early.
pub open spec fn short<T: Transport>() -> Result<(SessionView<T>, StepView<T>), Error> {
    Err(Error::IndexOutOfBounds)
}

/// The user is told, and the session is then `s`.
pub open spec fn tells<T: Transport>(s: SessionView<T>, c: CallbackView) -> Result<
    (SessionView<T>, StepView<T>),
    Error,
> {
    Ok((s, StepView::Call(c)))
}

/// The session is then `s`, and there is nothing to do.
pub open spec fn goes_on<T: Transport>(s: SessionView<T>) -> Result<
    (SessionView<T>, StepView<T>),
    Error,
> {
    Ok((s, StepView::Done))
}

/// The session with another encrypted part, and nothing else changed.
pub open spec fn becomes<T: Transport>(s: SessionView<T>, f: EncryptedView<T>) -> SessionView<T> {
    SessionView { encrypted: Some(f), ..s }
}

/// A session that serves deals with the packet that it has read.
proof fn lemma_served<T: Transport>(s: SessionView<T>, e: EncryptedView<T>, b: Seq<u8>)
    requires
        serves(s, e),
        b[0] != msg::KEXINIT,
    ensures
        read_encrypted(s, b) == (match parse(b) {
            Ok(p) => handled(s, p),
            Err(e) => Err(e),
        }),
{
    assert(read_encrypted(s, b) == read_authenticated(s, b));
}

/// A confirmation of a channel, once its packet has been read.
proof fn lemma_confirmation_handled<T: Transport>(
    s: SessionView<T>,
    e: EncryptedView<T>,
    id: u32,
    number: u32,
    window: u32,
    size: u32,
)
    requires
        serves(s, e),
    ensures
        ({
            let done = handled(
                s,
                PacketView::OpenConfirmation {
                    id,
                    recipient_channel: number,
                    window,
                    max_packet: size,
                },
            );
            if e.channels.contains_key(id) {
                let f = EncryptedView {
                    channels: e.channels.insert(
                        id,
                        ParametersView {
                            recipient_channel: number,
                            recipient_window_size: window,
                            recipient_maximum_packet_size: size,
                            confirmed: true,
                            ..e.channels[id]
                        },
                    ),
                    ..e
                };
                done == tells(
                    becomes(s, f),
                    CallbackView::OpenConfirmation { id: ChannelId(id), max_packet: size, window },
                )
            } else {
                done == Err::<(SessionView<T>, StepView<T>), Error>(Error::Inconsistent)
            }
        }),
{
}

/// Data on a channel, once its packet has been read.
proof fn lemma_data_handled<T: Transport>(
    s: SessionView<T>,
    e: EncryptedView<T>,
    id: u32,
    code: u32,
    data: Seq<u8>,
)
    requires
        serves(s, e),
        data.len() <= u32::MAX,
    ensures
        handled(s, PacketView::Data { id, data }) matches Ok((t, step)) && {
            let adjusted = window_low(e, id, data.len() as u32, s.config.window_size);
            let f = received(e, id, data.len() as u32, s.config.window_size);
            &&& t == becomes(s, f)
            &&& step == StepView::<T>::Call(
                CallbackView::Data { id: ChannelId(id), data, window_adjusted: adjusted },
            )
            &&& handled(s, PacketView::ExtendedData { id, code, data }) == tells(
                t,
                CallbackView::ExtendedData {
                    id: ChannelId(id),
                    code,
                    data,
                    window_adjusted: adjusted,
                },
            )
        },
{
}

/// The other news of a channel, once their packets have been read.
proof fn lemma_news_handled<T: Transport>(s: SessionView<T>, e: EncryptedView<T>, id: u32, n: u32)
    requires
        serves(s, e),
    ensures
        handled(s, PacketView::Close { id }) == tells(
            becomes(s, EncryptedView { channels: e.channels.remove(id), ..e }),
            CallbackView::Close { id: ChannelId(id) },
        ),
        handled(s, PacketView::Eof { id }) == tells(s, CallbackView::Eof { id: ChannelId(id) }),
        handled(s, PacketView::Success { id }) == tells(
            s,
            CallbackView::Success { id: ChannelId(id) },
        ),
        handled(s, PacketView::GlobalRequest) == goes_on(s),
        handled(s, PacketView::Unknown) == goes_on(s),
        !e.channels.contains_key(id) ==> handled(s, PacketView::WindowAdjust { id, amount: n })
            == Err::<(SessionView<T>, StepView<T>), Error>(Error::WrongChannel),
        e.channels.contains_key(id) && e.channels[id].recipient_window_size + n <= u32::MAX
            ==> handled(s, PacketView::WindowAdjust { id, amount: n }) == tells(
            becomes(
                s,
                EncryptedView {
                    channels: e.channels.insert(
                        id,
                        ParametersView {
                            recipient_window_size: (e.channels[id].recipient_window_size
                                + n) as u32,
                            ..e.channels[id]
                        },
                    ),
                    ..e
                },
            ),
            CallbackView::WindowAdjusted {
                id: ChannelId(id),
                new_size: (e.channels[id].recipient_window_size + n) as u32,
            },
        ),
{
}

/// A refusal of a channel, once its packet has been read.
proof fn lemma_refusal_handled<T: Transport>(
    s: SessionView<T>,
    e: EncryptedView<T>,
    id: u32,
    reason: ChannelOpenFailure,
    description: Seq<char>,
    language: Seq<char>,
)
    requires
        serves(s, e),
    ensures
        handled(
            s,
            PacketView::OpenFailure {
                id,
                reason_code: number_of(reason),
                description,
                language,
            },
        ) == tells(
            becomes(s, EncryptedView { channels: e.channels.remove(id), ..e }),
            CallbackView::OpenFailure { id: ChannelId(id), reason, description, language },
        ),
{
}

/// A request about a channel, once its packet has been read.
proof fn lemma_request_handled<T: Transport>(s: SessionView<T>, id: u32, request: RequestView)
    ensures
        ({
            let done = handled(s, PacketView::Request { id, request });
            match request {
                RequestView::ForwardedTcpip {
                    connected_address,
                    connected_port,
                    originator_address,
                    originator_port,
                } => done == tells(
                    s,
                    CallbackView::OpenForwardedTcpip {
                        id: ChannelId(id),
                        connected_address,
                        connected_port,
                        originator_address,
                        originator_port,
                    },
                ),
                RequestView::XonXoff { client_can_do } => done == tells(
                    s,
                    CallbackView::XonXoff { id: ChannelId(id), client_can_do },
                ),
                RequestView::ExitStatus { exit_status } => done == tells(
                    s,
                    CallbackView::ExitStatus { id: ChannelId(id), exit_status },
                ),
                RequestView::ExitSignal { signal, core_dumped, error_message, lang_tag } => done
                    == tells(
                    s,
                    CallbackView::ExitSignal {
                        id: ChannelId(id),
                        signal,
                        core_dumped,
                        error_message,
                        lang_tag,
                    },
                ),
                RequestView::Unknown => done == goes_on(s),
            }
        }),
{
}

/// A channel of an unknown kind, once its packet has been read.
proof fn lemma_unknown_channel_handled<T: Transport>(
    s: SessionView<T>,
    e: EncryptedView<T>,
    sender_channel: u32,
    window: u32,
    max_packet: u32,
)
    requires
        serves(s, e),
    ensures
        handled(
            s,
            PacketView::Open { sender_channel, window, max_packet, kind: OpenKindView::Unknown },
        ) == goes_on(
            becomes(
                s,
                EncryptedView {
                    write: e.write + packet(
                        seq![msg::CHANNEL_OPEN_FAILURE] + be32(sender_channel) + be32(3)
                            + ssh_string("Unknown channel type".spec_bytes()) + ssh_string(
                            "en".spec_bytes(),
                        ),
                    ),
                    ..e
                },
            ),
        ),
{
}

/// A confirmation of a channel that this side has asked for: the server's number, window and
/// packet size that stand in the packet become those of the channel, the channel is confirmed, and
/// the user is told. Nothing else changes. A confirmation of any other channel ends the session.
pub proof fn law_confirmation_noted<T: Transport>(
    s: SessionView<T>,
    e: EncryptedView<T>,
    b: Seq<u8>,
)
    requires
        serves(s, e),
        b[0] == msg::CHANNEL_OPEN_CONFIRMATION,
    ensures
        match (u32_at(b, 1), u32_at(b, 5), u32_at(b, 9), u32_at(b, 13)) {
            (Some(id), Some(number), Some(window), Some(size)) => if e.channels.contains_key(id) {
                read_encrypted(s, b) matches Ok((t, step)) && {
                    let f = t.encrypted->Some_0;
                    let (p, q) = (e.channels[id], f.channels[id]);
                    &&& step == StepView::<T>::Call(
                        CallbackView::OpenConfirmation {
                            id: ChannelId(id),
                            max_packet: size,
                            window,
                        },
                    )
                    &&& t == becomes(s, f)
                    &&& f == (EncryptedView { channels: f.channels, ..e })
                    &&& f.channels.dom() == e.channels.dom()
                    &&& f.channels.remove(id) == e.channels.remove(id)
                    &&& q.recipient_channel == number
                    &&& q.recipient_window_size == window
                    &&& q.recipient_maximum_packet_size == size
                    &&& q.confirmed
                    &&& q.sender_channel == p.sender_channel
                    &&& q.sender_window_size == p.sender_window_size
                    &&& q.sender_maximum_packet_size == p.sender_maximum_packet_size
                    &&& q.wants_reply == p.wants_reply
                    &&& q.pending_data == p.pending_data
                }
            } else {
                read_encrypted(s, b) == Err::<(SessionView<T>, StepView<T>), Error>(
                    Error::Inconsistent,
                )
            },
            _ => read_encrypted(s, b) == short::<T>(),
        },
{
    lemma_served(s, e, b);
    if let (Some(id), Some(number), Some(window), Some(size)) = (
        u32_at(b, 1),
        u32_at(b, 5),
        u32_at(b, 9),
        u32_at(b, 13),
    ) {
        lemma_confirmation_handled(s, e, id, number, window, size);
        if e.channels.contains_key(id) {
            let f = read_encrypted(s, b)->Ok_0.0.encrypted->Some_0;
            assert(f.channels.remove(id) =~= e.channels.remove(id));
            assert(f.channels.dom() =~= e.channels.dom());
        }
    }
}

/// A closed channel is forgotten, whether it was known or not, the user is told, and nothing else
/// changes.
pub proof fn law_close_told<T: Transport>(s: SessionView<T>, e: EncryptedView<T>, b: Seq<u8>)
    requires
        serves(s, e),
        b[0] == msg::CHANNEL_CLOSE,
    ensures
        match u32_at(b, 1) {
            Some(id) => read_encrypted(s, b) == tells(
                becomes(s, EncryptedView { channels: e.channels.remove(id), ..e }),
                CallbackView::Close { id: ChannelId(id) },
            ),
            None => read_encrypted(s, b) == short::<T>(),
        },
{
    lemma_served(s, e, b);
    if let Some(id) = u32_at(b, 1) {
        lemma_news_handled(s, e, id, 0);
    }
}

/// Of the end of a channel and of a granted request the user is told, and nothing changes.
pub proof fn law_end_and_success_told<T: Transport>(
    s: SessionView<T>,
    e: EncryptedView<T>,
    b: Seq<u8>,
)
    requires
        serves(s, e),
        b[0] == msg::CHANNEL_EOF || b[0] == msg::CHANNEL_SUCCESS,
    ensures
        match u32_at(b, 1) {
            Some(id) => read_encrypted(s, b) == tells(
                s,
                if b[0] == msg::CHANNEL_EOF {
                    CallbackView::Eof { id: ChannelId(id) }
                } else {
                    CallbackView::Success { id: ChannelId(id) }
                },
            ),
            None => read_encrypted(s, b) == short::<T>(),
        },
{
    lemma_served(s, e, b);
    if let Some(id) = u32_at(b, 1) {
        lemma_news_handled(s, e, id, 0);
    }
}

/// A channel that the server refuses is forgotten, and the user is told the reason with the number
/// that stands in the packet and the two texts behind it. Nothing else changes.
pub proof fn law_refusal_told<T: Transport>(s: SessionView<T>, e: EncryptedView<T>, b: Seq<u8>)
    requires
        serves(s, e),
        b[0] == msg::CHANNEL_OPEN_FAILURE,
        u32_at(b, 5) matches Some(code) ==> 1 <= code <= 4,
    ensures
        match (u32_at(b, 1), u32_at(b, 5), string_at(b, 9)) {
            (Some(id), Some(code), Some(first)) => {
                let reason = if code == 1 {
                    ChannelOpenFailure::AdministrativelyProhibited
                } else if code == 2 {
                    ChannelOpenFailure::ConnectFailed
                } else if code == 3 {
                    ChannelOpenFailure::UnknownChannelType
                } else {
                    ChannelOpenFailure::ResourceShortage
                };
                if !valid_utf8(first) {
                    read_encrypted(s, b) == Err::<(SessionView<T>, StepView<T>), Error>(Error::Utf8)
                } else {
                    match string_at(b, 13 + first.len() as int) {
                        Some(second) => if valid_utf8(second) {
                            read_encrypted(s, b) == tells(
                                becomes(s, EncryptedView { channels: e.channels.remove(id), ..e }),
                                CallbackView::OpenFailure {
                                    id: ChannelId(id),
                                    reason,
                                    description: decode_utf8(first),
                                    language: decode_utf8(second),
                                },
                            )
                        } else {
                            read_encrypted(s, b) == Err::<(SessionView<T>, StepView<T>), Error>(
                                Error::Utf8,
                            )
                        },
                        None => read_encrypted(s, b) == short::<T>(),
                    }
                }
            },
            _ => read_encrypted(s, b) == short::<T>(),
        },
{
    lemma_served(s, e, b);
    if let (Some(id), Some(code), Some(first)) = (u32_at(b, 1), u32_at(b, 5), string_at(b, 9)) {
        if let Some(second) = string_at(b, 13 + first.len() as int) {
            let (d, l) = (decode_utf8(first), decode_utf8(second));
            lemma_refusal_handled(
                s,
                e,
                id,
                ChannelOpenFailure::AdministrativelyProhibited,
                d,
                l,
            );
            lemma_refusal_handled(s, e, id, ChannelOpenFailure::ConnectFailed, d, l);
            lemma_refusal_handled(s, e, id, ChannelOpenFailure::UnknownChannelType, d, l);
            lemma_refusal_handled(s, e, id, ChannelOpenFailure::ResourceShortage, d, l);
        }
    }
}

/// What becomes of the encrypted part when `n` bytes come in on a channel: they are taken off its
/// window as far as they are within it; if less than half of the target is left, the window is
/// opened to the target and the server is granted the difference.
pub open spec fn window_kept<T: Transport>(
    e: EncryptedView<T>,
    f: EncryptedView<T>,
    id: u32,
    n: nat,
    target: u32,
    adjusted: bool,
) -> bool {
    if e.channels.contains_key(id) {
        let p = e.channels[id];
        let window = p.sender_window_size as int;
        let left = if n <= window {
            window - n
        } else {
            window
        };
        &&& adjusted == (2 * left + 2 <= target)
        &&& f.channels.dom() == e.channels.dom()
        &&& f.channels.remove(id) == e.channels.remove(id)
        &&& f.channels[id] == (ParametersView {
            sender_window_size: f.channels[id].sender_window_size,
            ..p
        })
        &&& f.channels[id].sender_window_size == (if adjusted {
            target as int
        } else {
            left
        })
        &&& f.write == (if adjusted {
            e.write + packet(
                seq![msg::CHANNEL_WINDOW_ADJUST] + be32(p.recipient_channel) + be32(
                    (target - left) as u32,
                ),
            )
        } else {
            e.write
        })
        &&& f == (EncryptedView { channels: f.channels, write: f.write, ..e })
    } else {
        !adjusted && f == e
    }
}

/// Incoming data keeps the window of its channel open, whatever the target.
pub proof fn law_window_kept<T: Transport>(e: EncryptedView<T>, id: u32, n: u32, target: u32)
    ensures
        window_kept(
            e,
            received(e, id, n, target),
            id,
            n as nat,
            target,
            window_low(e, id, n, target),
        ),
{
    let f = received(e, id, n, target);
    assert(f.channels.remove(id) =~= e.channels.remove(id));
    if e.channels.contains_key(id) {
        assert(f.channels.dom() =~= e.channels.dom());
    }
}

/// Data on a channel reaches the user whole: the number and the string that stand in the packet,
/// whether or not the window is opened again on their account; and the window is kept open.
pub proof fn law_data_told<T: Transport>(s: SessionView<T>, e: EncryptedView<T>, b: Seq<u8>)
    requires
        serves(s, e),
        b[0] == msg::CHANNEL_DATA,
    ensures
        match (u32_at(b, 1), string_at(b, 5)) {
            (Some(id), Some(data)) => read_encrypted(s, b) matches Ok((t, step)) && {
                &&& step matches StepView::Call(
                    CallbackView::Data { id: told, data: handed, window_adjusted },
                )
                &&& told == ChannelId(id)
                &&& handed == data
                &&& t == becomes(s, t.encrypted->Some_0)
                &&& window_kept(
                    e,
                    t.encrypted->Some_0,
                    id,
                    data.len(),
                    s.config.window_size,
                    window_adjusted,
                )
            },
            _ => read_encrypted(s, b) == short::<T>(),
        },
{
    lemma_served(s, e, b);
    if let (Some(id), Some(data)) = (u32_at(b, 1), string_at(b, 5)) {
        lemma_data_handled(s, e, id, 0, data);
        law_window_kept(e, id, data.len() as u32, s.config.window_size);
    }
}

/// Extended data on a channel reaches the user whole in the same way, with its code.
pub proof fn law_extended_data_told<T: Transport>(
    s: SessionView<T>,
    e: EncryptedView<T>,
    b: Seq<u8>,
)
    requires
        serves(s, e),
        b[0] == msg::CHANNEL_EXTENDED_DATA,
    ensures
        match (u32_at(b, 1), u32_at(b, 5), string_at(b, 9)) {
            (Some(id), Some(code), Some(data)) => read_encrypted(s, b) matches Ok((t, step)) && {
                &&& step matches StepView::Call(
                    CallbackView::ExtendedData {
                        id: told,
                        code: kind,
                        data: handed,
                        window_adjusted,
                    },
                )
                &&& told == ChannelId(id)
                &&& kind == code
                &&& handed == data
                &&& t == becomes(s, t.encrypted->Some_0)
                &&& window_kept(
                    e,
                    t.encrypted->Some_0,
                    id,
                    data.len(),
                    s.config.window_size,
                    window_adjusted,
                )
            },
            _ => read_encrypted(s, b) == short::<T>(),
        },
{
    lemma_served(s, e, b);
    if let (Some(id), Some(code), Some(data)) = (u32_at(b, 1), u32_at(b, 5), string_at(b, 9)) {
        lemma_data_handled(s, e, id, code, data);
        law_window_kept(e, id, data.len() as u32, s.config.window_size);
    }
}

/// When the server opens the window of a channel, exactly the amount that stands in the packet is
/// added to what may be sent on that channel, the user is told the sum, and nothing else changes.
/// News of an unknown channel end the session.
pub proof fn law_window_opening_told<T: Transport>(
    s: SessionView<T>,
    e: EncryptedView<T>,
    b: Seq<u8>,
)
    requires
        serves(s, e),
        b[0] == msg::CHANNEL_WINDOW_ADJUST,
        (u32_at(b, 1) matches Some(id) && u32_at(b, 5) matches Some(amount)
            && e.channels.contains_key(id)) ==> e.channels[u32_at(b, 1)->Some_0]
            .recipient_window_size + u32_at(b, 5)->Some_0 <= u32::MAX,
    ensures
        match (u32_at(b, 1), u32_at(b, 5)) {
            (Some(id), Some(amount)) => if e.channels.contains_key(id) {
                let p = e.channels[id];
                let sum = (p.recipient_window_size + amount) as u32;
                read_encrypted(s, b) == tells(
                    becomes(
                        s,
                        EncryptedView {
                            channels: e.channels.insert(
                                id,
                                ParametersView { recipient_window_size: sum, ..p },
                            ),
                            ..e
                        },
                    ),
                    CallbackView::WindowAdjusted { id: ChannelId(id), new_size: sum },
                )
            } else {
                read_encrypted(s, b) == Err::<(SessionView<T>, StepView<T>), Error>(
                    Error::WrongChannel,
                )
            },
            _ => read_encrypted(s, b) == short::<T>(),
        },
{
    lemma_served(s, e, b);
    if let (Some(id), Some(amount)) = (u32_at(b, 1), u32_at(b, 5)) {
        lemma_news_handled(s, e, id, amount);
    }
}

/// A global request and a packet of an unknown kind change nothing and ask for nothing.
pub proof fn law_other_packets_ignored<T: Transport>(
    s: SessionView<T>,
    e: EncryptedView<T>,
    b: Seq<u8>,
)
    requires
        serves(s, e),
        b[0] != msg::KEXINIT,
        b[0] != msg::CHANNEL_OPEN,
        b[0] != msg::CHANNEL_OPEN_CONFIRMATION,
        b[0] != msg::CHANNEL_OPEN_FAILURE,
        b[0] != msg::CHANNEL_WINDOW_ADJUST,
        b[0] != msg::CHANNEL_DATA,
        b[0] != msg::CHANNEL_EXTENDED_DATA,
        b[0] != msg::CHANNEL_EOF,
        b[0] != msg::CHANNEL_CLOSE,
        b[0] != msg::CHANNEL_REQUEST,
        b[0] != msg::CHANNEL_SUCCESS,
    ensures
        read_encrypted(s, b) == (if b[0] == msg::GLOBAL_REQUEST && string_at(b, 1) is None {
            short::<T>()
        } else {
            goes_on(s)
        }),
{
    lemma_served(s, e, b);
    lemma_news_handled(s, e, 0, 0);
}

/// The fields of the short requests: a byte without meaning, then a status or a flag.
proof fn lemma_request_fields(b: Seq<u8>)
    ensures
        request_at(b, 20, "exit-status".spec_bytes()) == (match u32_at(b, 21) {
            Some(n) => Ok::<RequestView, Error>(RequestView::ExitStatus { exit_status: n }),
            None => Err::<RequestView, Error>(Error::IndexOutOfBounds),
        }),
        b.len() > 18 ==> request_at(b, 17, "xon-xoff".spec_bytes()) == Ok::<RequestView, Error>(
            RequestView::XonXoff { client_can_do: b[18] != 0 },
        ),
        b.len() <= 18 ==> request_at(b, 17, "xon-xoff".spec_bytes()) == Err::<RequestView, Error>(
            Error::IndexOutOfBounds,
        ),
{
    lemma_request_names();
}

/// Of the exit of a remote process the user is told, for every status, with the number of the
/// channel and the status that stand in the packet. Nothing changes.
pub proof fn law_exit_status_told<T: Transport>(
    s: SessionView<T>,
    e: EncryptedView<T>,
    b: Seq<u8>,
    id: u32,
)
    requires
        serves(s, e),
        b[0] == msg::CHANNEL_REQUEST,
        u32_at(b, 1) == Some(id),
        string_at(b, 5) == Some("exit-status".spec_bytes()),
    ensures
        match u32_at(b, 21) {
            Some(n) => read_encrypted(s, b) == tells(
                s,
                CallbackView::ExitStatus { id: ChannelId(id), exit_status: n },
            ),
            None => read_encrypted(s, b) == short::<T>(),
        },
{
    lemma_request_names();
    lemma_request_fields(b);
    lemma_served(s, e, b);
    let request = request_at(b, 20, "exit-status".spec_bytes());
    assert(parse(b) == (match request {
        Ok(request) => Ok::<PacketView, Error>(PacketView::Request { id, request }),
        Err(e) => Err::<PacketView, Error>(e),
    }));
    if let Ok(request) = request {
        lemma_request_handled(s, id, request);
    }
}

/// Of a change of the flow control the user is told, with the flag that stands in the packet.
/// Nothing changes.
pub proof fn law_xon_xoff_told<T: Transport>(
    s: SessionView<T>,
    e: EncryptedView<T>,
    b: Seq<u8>,
    id: u32,
)
    requires
        serves(s, e),
        b[0] == msg::CHANNEL_REQUEST,
        u32_at(b, 1) == Some(id),
        string_at(b, 5) == Some("xon-xoff".spec_bytes()),
    ensures
        b.len() <= 18 ==> read_encrypted(s, b) == short::<T>(),
        b.len() > 18 ==> read_encrypted(s, b) == tells(
            s,
            CallbackView::XonXoff { id: ChannelId(id), client_can_do: b[18] != 0 },
        ),
{
    lemma_request_names();
    lemma_request_fields(b);
    lemma_served(s, e, b);
    let request = request_at(b, 17, "xon-xoff".spec_bytes());
    assert(parse(b) == (match request {
        Ok(request) => Ok::<PacketView, Error>(PacketView::Request { id, request }),
        Err(e) => Err::<PacketView, Error>(e),
    }));
    if let Ok(request) = request {
        lemma_request_handled(s, id, request);
    }
}

/// Of the end of a remote process by a signal the user is told, with the signal, the flag and the
/// two texts that stand in the packet. Nothing changes.
pub proof fn law_exit_signal_told<T: Transport>(
    s: SessionView<T>,
    e: EncryptedView<T>,
    b: Seq<u8>,
    id: u32,
)
    requires
        serves(s, e),
        b[0] == msg::CHANNEL_REQUEST,
        u32_at(b, 1) == Some(id),
        string_at(b, 5) == Some("exit-signal".spec_bytes()),
    ensures
        match string_at(b, 21) {
            Some(name) => match sig_named(name) {
                Ok(signal) => {
                    let j = 25 + name.len() as int;
                    match string_at(b, j + 1) {
                        Some(first) => if valid_utf8(first) {
                            match string_at(b, j + 5 + first.len()) {
                                Some(second) => read_encrypted(s, b) == (if valid_utf8(second) {
                                    tells(
                                        s,
                                        CallbackView::ExitSignal {
                                            id: ChannelId(id),
                                            signal,
                                            core_dumped: b[j] != 0,
                                            error_message: decode_utf8(first),
                                            lang_tag: decode_utf8(second),
                                        },
                                    )
                                } else {
                                    Err(Error::Utf8)
                                }),
                                None => read_encrypted(s, b) == short::<T>(),
                            }
                        } else {
                            read_encrypted(s, b) == Err::<(SessionView<T>, StepView<T>), Error>(
                                Error::Utf8,
                            )
                        },
                        None => read_encrypted(s, b) == short::<T>(),
                    }
                },
                Err(e) => read_encrypted(s, b) == Err::<(SessionView<T>, StepView<T>), Error>(e),
            },
            None => read_encrypted(s, b) == short::<T>(),
        },
{
    lemma_request_names();
    lemma_served(s, e, b);
    let request = request_at(b, 20, "exit-signal".spec_bytes());
    assert(parse(b) == (match request {
        Ok(request) => Ok::<PacketView, Error>(PacketView::Request { id, request }),
        Err(e) => Err::<PacketView, Error>(e),
    }));
    if let Ok(request) = request {
        lemma_request_handled(s, id, request);
    }
}

/// Of a request for a forwarded connection the user is told, with the two texts and the two ports
/// that stand in the packet. Nothing changes.
pub proof fn law_forwarded_request_told<T: Transport>(
    s: SessionView<T>,
    e: EncryptedView<T>,
    b: Seq<u8>,
    id: u32,
)
    requires
        serves(s, e),
        b[0] == msg::CHANNEL_REQUEST,
        u32_at(b, 1) == Some(id),
        string_at(b, 5) == Some("forwarded_tcpip".spec_bytes()),
    ensures
        match string_at(b, 24) {
            Some(first) => {
                let j = 28 + first.len() as int;
                if !valid_utf8(first) {
                    read_encrypted(s, b) == Err::<(SessionView<T>, StepView<T>), Error>(Error::Utf8)
                } else {
                    match (u32_at(b, j), string_at(b, j + 4)) {
                        (Some(port), Some(second)) => if !valid_utf8(second) {
                            read_encrypted(s, b) == Err::<(SessionView<T>, StepView<T>), Error>(
                                Error::Utf8,
                            )
                        } else {
                            match u32_at(b, j + 8 + second.len()) {
                                Some(other) => read_encrypted(s, b) == tells(
                                    s,
                                    CallbackView::OpenForwardedTcpip {
                                        id: ChannelId(id),
                                        connected_address: decode_utf8(first),
                                        connected_port: port,
                                        originator_address: decode_utf8(second),
                                        originator_port: other,
                                    },
                                ),
                                None => read_encrypted(s, b) == short::<T>(),
                            }
                        },
                        _ => read_encrypted(s, b) == short::<T>(),
                    }
                }
            },
            None => read_encrypted(s, b) == short::<T>(),
        },
{
    lemma_request_names();
    lemma_served(s, e, b);
    let request = request_at(b, 24, "forwarded_tcpip".spec_bytes());
    assert(parse(b) == (match request {
        Ok(request) => Ok::<PacketView, Error>(PacketView::Request { id, request }),
        Err(e) => Err::<PacketView, Error>(e),
    }));
    if let Ok(request) = request {
        lemma_request_handled(s, id, request);
    }
}

/// A request of any other name changes nothing and asks for nothing. One without a number and a
/// name ends the session.
pub proof fn law_other_requests_ignored<T: Transport>(
    s: SessionView<T>,
    e: EncryptedView<T>,
    b: Seq<u8>,
)
    requires
        serves(s, e),
        b[0] == msg::CHANNEL_REQUEST,
        string_at(b, 5) matches Some(name) ==> {
            &&& name != "forwarded_tcpip".spec_bytes()
            &&& name != "xon-xoff".spec_bytes()
            &&& name != "exit-status".spec_bytes()
            &&& name != "exit-signal".spec_bytes()
        },
    ensures
        read_encrypted(s, b) == (if u32_at(b, 1) is Some && string_at(b, 5) is Some {
            goes_on(s)
        } else {
            short::<T>()
        }),
{
    lemma_served(s, e, b);
    if let Some(id) = u32_at(b, 1) {
        lemma_request_handled(s, id, RequestView::Unknown);
    }
}

/// The names of the requests differ, and these are their lengths.
proof fn lemma_request_names()
    ensures
        "forwarded_tcpip".spec_bytes().len() == 15,
        "xon-xoff".spec_bytes().len() == 8,
        "exit-status".spec_bytes().len() == 11,
        "exit-signal".spec_bytes().len() == 11,
        "exit-status".spec_bytes() != "exit-signal".spec_bytes(),
{
    reveal_strlit("forwarded_tcpip");
    reveal_strlit("xon-xoff");
    reveal_strlit("exit-status");
    reveal_strlit("exit-signal");
    assert(vstd::string::is_ascii("forwarded_tcpip"));
    assert(vstd::string::is_ascii("xon-xoff"));
    assert(vstd::string::is_ascii("exit-status"));
    assert(vstd::string::is_ascii("exit-signal"));
    assert("exit-status".spec_bytes()[6] == 't' as u8);
    assert("exit-signal".spec_bytes()[6] == 'i' as u8);
}

/// A channel of any kind but a forwarded connection is refused: the refusal is addressed to the
/// number that stands in the packet, names an unknown kind as the reason, and is all that changes.
pub proof fn law_unknown_channel_refused<T: Transport>(
    s: SessionView<T>,
    e: EncryptedView<T>,
    b: Seq<u8>,
    name: Seq<u8>,
)
    requires
        serves(s, e),
        b[0] == msg::CHANNEL_OPEN,
        string_at(b, 1) == Some(name),
        name != "forwarded-tcpip".spec_bytes(),
    ensures
        match (
            u32_at(b, 5 + name.len() as int),
            u32_at(b, 9 + name.len() as int),
            u32_at(b, 13 + name.len() as int),
        ) {
            (Some(number), Some(_), Some(_)) => read_encrypted(s, b) == goes_on(
                becomes(
                    s,
                    EncryptedView {
                        write: e.write + packet(
                            seq![msg::CHANNEL_OPEN_FAILURE] + be32(number) + be32(3) + ssh_string(
                                "Unknown channel type".spec_bytes(),
                            ) + ssh_string("en".spec_bytes()),
                        ),
                        ..e
                    },
                ),
            ),
            _ => read_encrypted(s, b) == short::<T>(),
        },
{
    lemma_served(s, e, b);
    if let (Some(number), Some(window), Some(size)) = (
        u32_at(b, 5 + name.len() as int),
        u32_at(b, 9 + name.len() as int),
        u32_at(b, 13 + name.len() as int),
    ) {
        lemma_unknown_channel_handled(s, e, number, window, size);
    }
}

/// The kind, the number, the window and the packet size of a channel that the server opens.
#[verifier::spinoff_prover]
#[verifier::rlimit(40)]
proof fn lemma_open_parsed(b: Seq<u8>, name: Seq<u8>)
    requires
        b[0] == msg::CHANNEL_OPEN,
        string_at(b, 1) == Some(name),
    ensures
        ({
            let i = 5 + name.len() as int;
            parse(b) == (match (u32_at(b, i), u32_at(b, i + 4), u32_at(b, i + 8)) {
                (Some(sender_channel), Some(window), Some(max_packet)) => match open_kind_at(
                    b,
                    i + 12,
                    name,
                ) {
                    Ok(kind) => Ok::<PacketView, Error>(
                        PacketView::Open { sender_channel, window, max_packet, kind },
                    ),
                    Err(e) => Err::<PacketView, Error>(e),
                },
                _ => Err::<PacketView, Error>(Error::IndexOutOfBounds),
            })
        }),
{
    assert(past(b, 1) == 5 + name.len());
}

/// The fields of a forwarded connection.
proof fn lemma_forwarded_kind(b: Seq<u8>)
    ensures
        open_kind_at(b, 32, "forwarded-tcpip".spec_bytes()) == (match string_at(b, 32) {
            Some(address) => {
                let j = 36 + address.len() as int;
                match (u32_at(b, j), string_at(b, j + 4)) {
                    (Some(port), Some(origin)) => match u32_at(b, j + 8 + origin.len()) {
                        Some(other) => Ok::<OpenKindView, Error>(
                            OpenKindView::ForwardedTcpip {
                                address,
                                port,
                                originator_address: origin,
                                originator_port: other,
                            },
                        ),
                        None => Err::<OpenKindView, Error>(Error::IndexOutOfBounds),
                    },
                    _ => Err::<OpenKindView, Error>(Error::IndexOutOfBounds),
                }
            },
            None => Err::<OpenKindView, Error>(Error::IndexOutOfBounds),
        }),
{
}

/// A packet of a forwarded connection, read whole.
#[verifier::spinoff_prover]
#[verifier::rlimit(80)]
proof fn lemma_forwarded_parsed(b: Seq<u8>)
    requires
        b[0] == msg::CHANNEL_OPEN,
        string_at(b, 1) == Some("forwarded-tcpip".spec_bytes()),
    ensures
        parse(b) == (match (u32_at(b, 20), u32_at(b, 24), u32_at(b, 28), string_at(b, 32)) {
            (Some(sender_channel), Some(window), Some(max_packet), Some(address)) => {
                let j = 36 + address.len() as int;
                match (u32_at(b, j), string_at(b, j + 4)) {
                    (Some(port), Some(origin)) => match u32_at(b, j + 8 + origin.len()) {
                        Some(other) => Ok::<PacketView, Error>(
                            PacketView::Open {
                                sender_channel,
                                window,
                                max_packet,
                                kind: OpenKindView::ForwardedTcpip {
                                    address,
                                    port,
                                    originator_address: origin,
                                    originator_port: other,
                                },
                            },
                        ),
                        None => Err::<PacketView, Error>(Error::IndexOutOfBounds),
                    },
                    _ => Err::<PacketView, Error>(Error::IndexOutOfBounds),
                }
            },
            _ => Err::<PacketView, Error>(Error::IndexOutOfBounds),
        }),
{
    assert("forwarded-tcpip".spec_bytes().len() == 15) by {
        reveal_strlit("forwarded-tcpip");
        assert(vstd::string::is_ascii("forwarded-tcpip"));
    }
    lemma_open_parsed(b, "forwarded-tcpip".spec_bytes());
    lemma_forwarded_kind(b);
}

/// What a forwarded connection asks for, once its packet has been read.
proof fn lemma_forwarded_handled<T: Transport>(
    s: SessionView<T>,
    sender_channel: u32,
    window: u32,
    max_packet: u32,
    address: Seq<u8>,
    port: u32,
    originator_address: Seq<u8>,
    originator_port: u32,
)
    ensures
        handled(
            s,
            PacketView::Open {
                sender_channel,
                window,
                max_packet,
                kind: OpenKindView::ForwardedTcpip {
                    address,
                    port,
                    originator_address,
                    originator_port,
                },
            },
        ) == (match ip_named(lossy(address)) {
            Some(ip) => Ok::<(SessionView<T>, StepView<T>), Error>(
                (s, StepView::ForwardedTcpip { ip, port, sender_channel, window, max_packet }),
            ),
            None => goes_on(s),
        }),
{
}

/// A forwarded connection asks for a channel for the address and the port that stand in the
/// packet, with the number, the window and the packet size of the server. A text that is no
/// address is ignored. Where the connection came from has to be there, and plays no part.
#[verifier::spinoff_prover]
#[verifier::rlimit(40)]
pub proof fn law_forwarded_connection_asked<T: Transport>(
    s: SessionView<T>,
    e: EncryptedView<T>,
    b: Seq<u8>,
)
    requires
        serves(s, e),
        b[0] == msg::CHANNEL_OPEN,
        string_at(b, 1) == Some("forwarded-tcpip".spec_bytes()),
    ensures
        match (u32_at(b, 20), u32_at(b, 24), u32_at(b, 28), string_at(b, 32)) {
            (Some(number), Some(window), Some(size), Some(address)) => {
                let j = 36 + address.len() as int;
                match (u32_at(b, j), string_at(b, j + 4)) {
                    (Some(port), Some(origin)) => if u32_at(b, j + 8 + origin.len()) is None {
                        read_encrypted(s, b) == short::<T>()
                    } else {
                        match ip_named(lossy(address)) {
                            Some(ip) => read_encrypted(s, b) == Ok::<
                                (SessionView<T>, StepView<T>),
                                Error,
                            >(
                                (
                                    s,
                                    StepView::ForwardedTcpip {
                                        ip,
                                        port,
                                        sender_channel: number,
                                        window,
                                        max_packet: size,
                                    },
                                ),
                            ),
                            None => read_encrypted(s, b) == goes_on(s),
                        }
                    },
                    _ => read_encrypted(s, b) == short::<T>(),
                }
            },
            _ => read_encrypted(s, b) == short::<T>(),
        },
{
    lemma_forwarded_parsed(b);
    lemma_served(s, e, b);
    if let (Some(number), Some(window), Some(size), Some(address)) = (
        u32_at(b, 20),
        u32_at(b, 24),
        u32_at(b, 28),
        string_at(b, 32),
    ) {
        let j = 36 + address.len() as int;
        if let (Some(port), Some(origin)) = (u32_at(b, j), string_at(b, j + 4)) {
            if let Some(other) = u32_at(b, j + 8 + origin.len()) {
                lemma_forwarded_handled(s, number, window, size, address, port, origin, other);
            }
        }
    }
}

} // verus!
