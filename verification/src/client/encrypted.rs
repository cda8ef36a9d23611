//! What a client does with the packets of an encrypted session.
use crate::address::{ip_in, read_ip};
use crate::auth::{
    auth_request, key_request, password_request, request_head, to_sign, AuthRequest,
    CurrentRequest, Method, MethodSet, PublicKey,
};
use crate::buffer::{as_slice, be32, buffer_max, contents};
use crate::client::channel::OpenChannelMsg;
use crate::client::{Callback, CallbackView, Session, SessionView, Step, StepView};
use crate::encoding::{
    extend_ssh_string, push_packet, reader, same_bytes, ssh_string, string_at, u32_at,
};
use crate::error::{text, text_of, Error};
use crate::msg;
use crate::names::{failure_numbered, ChannelOpenFailure};
use crate::packet::{parse, OpenKind, OpenKindView, Packet, PacketView, Request, RequestView};
use crate::session::{
    has_free_id, next_id, received, window_low, ChannelId, ChannelParameters, Config, Encrypted,
    EncryptedState, EncryptedView, IpAddr, Kex, ParametersView, SocketAddr, Transport,
};
use cryptovec::CryptoVec;
use std::collections::VecDeque;
use vstd::prelude::*;
use vstd::slice::slice_subrange;
use vstd::string::StringSliceAdditionalSpecFns;

verus! {

broadcast use vstd::std_specs::hash::group_hash_axioms;

/// Appends the part that all the requests of a user have in common.
fn push_request_head(body: &mut CryptoVec, user: &str, method: &str)
    requires
        contents(*old(body)).len() + request_head(user@, method.spec_bytes()).len()
            <= buffer_max(),
    ensures
        contents(*final(body)) == contents(*old(body)) + request_head(user@, method.spec_bytes()),
{
    body.push(msg::USERAUTH_REQUEST);
    extend_ssh_string(body, user.as_bytes());
    extend_ssh_string(body, "ssh-connection".as_bytes());
    extend_ssh_string(body, method.as_bytes());
    assert(contents(*body) =~= contents(*old(body)) + request_head(user@, method.spec_bytes()));
}

/// Appends a request with a public key.
fn push_key_request(body: &mut CryptoVec, user: &str, key: &PublicKey, signed: bool)
    requires
        contents(*old(body)).len() + key_request(user@, *key, signed).len() <= buffer_max(),
    ensures
        contents(*final(body)) == contents(*old(body)) + key_request(user@, *key, signed),
{
    push_request_head(body, user, "publickey");
    body.push(
        if signed {
            1u8
        } else {
            0u8
        },
    );
    extend_ssh_string(body, key.name.as_str().as_bytes());
    extend_ssh_string(body, key.blob.as_slice());
    assert(contents(*body) =~= contents(*old(body)) + key_request(user@, *key, signed));
}

impl<T: Transport> Encrypted<T> {
    /// Sends the request that opens the authentication of `user` by a method.
    pub fn write_auth_request(&mut self, user: &str, auth_method: &Method<T>) -> (r: bool)
        requires
            old(self)@.room(4 + auth_request(user@, *auth_method).len()),
        ensures
            r,
            final(self)@ == old(self)@.sends(auth_request(user@, *auth_method)),
    {
        let mut body = CryptoVec::new();
        match auth_method {
            Method::Password { password } => {
                push_request_head(&mut body, user, "password");
                body.push(1);
                extend_ssh_string(&mut body, password.as_str().as_bytes());
                assert(contents(body) =~= password_request(user@, password@));
            },
            Method::PublicKey { key, pair } => {
                push_key_request(&mut body, user, key, false);
                assert(contents(body) =~= key_request(user@, *key, false));
            },
            Method::FuturePublicKey { key } => {
                push_key_request(&mut body, user, key, false);
                assert(contents(body) =~= key_request(user@, *key, false));
            },
        }
        push_packet(&mut self.write, &body);
        assert(self@ =~= old(self)@.sends(auth_request(user@, *auth_method)));
        true
    }

    /// Fills a buffer with what is signed for a public key, and returns where the request
    /// starts in it.
    pub fn client_make_to_sign(&self, user: &str, key: &PublicKey, buffer: &mut CryptoVec) -> (i0:
        usize)
        requires
            to_sign(self@.session_id, user@, *key).len() <= buffer_max(),
        ensures
            contents(*final(buffer)) == to_sign(self@.session_id, user@, *key),
            i0 == ssh_string(self@.session_id).len(),
    {
        buffer.clear();
        extend_ssh_string(buffer, self.session_id.as_slice());
        let i0: usize = buffer.len();
        push_key_request(buffer, user, key, true);
        assert(contents(*buffer) =~= to_sign(self@.session_id, user@, *key));
        i0
    }

    /// Sends a signed request: what stands in the buffer from `i0` on.
    pub fn client_send_signature(&mut self, buffer: &CryptoVec, i0: usize)
        requires
            i0 <= contents(*buffer).len(),
            old(self)@.room((4 + contents(*buffer).len() - i0) as nat),
        ensures
            final(self)@ == old(self)@.sends(contents(*buffer).skip(i0 as int)),
    {
        let mut body = CryptoVec::new();
        body.extend(slice_subrange(as_slice(buffer), i0, buffer.len()));
        assert(contents(body) =~= contents(*buffer).skip(i0 as int));
        push_packet(&mut self.write, &body);
        assert(self@ =~= old(self)@.sends(contents(*buffer).skip(i0 as int)));
    }
}

/// The packet that confirms a channel which the server has opened.
pub open spec fn open_confirmation(remote: u32, local: u32, config: Config) -> Seq<u8> {
    seq![msg::CHANNEL_OPEN_CONFIRMATION] + be32(remote) + be32(local) + be32(config.window_size)
        + be32(config.maximum_packet_size)
}

/// The packet that refuses a channel of an unknown kind.
pub open spec fn open_refusal(remote: u32) -> Seq<u8> {
    seq![msg::CHANNEL_OPEN_FAILURE] + be32(remote) + be32(3) + ssh_string(
        "Unknown channel type".spec_bytes(),
    ) + ssh_string("en".spec_bytes())
}

/// How long the refusal of a channel is.
pub(crate) proof fn lemma_open_refusal_len(remote: u32)
    ensures
        open_refusal(remote).len() == 39,
{
    reveal_strlit("Unknown channel type");
    reveal_strlit("en");
    assert(vstd::string::is_ascii("Unknown channel type"));
    assert(vstd::string::is_ascii("en"));
}

/// Appends the packet that confirms a channel which the server has opened.
pub fn client_confirm_channel_open(
    buffer: &mut CryptoVec,
    remote_channel_no: u32,
    local_channel_no: u32,
    config: &Config,
)
    requires
        contents(*old(buffer)).len() + 21 <= buffer_max(),
    ensures
        contents(*final(buffer)) == contents(*old(buffer)) + crate::encoding::packet(
            open_confirmation(remote_channel_no, local_channel_no, *config),
        ),
{
    let mut body = CryptoVec::new();
    body.push(msg::CHANNEL_OPEN_CONFIRMATION);
    body.push_u32_be(remote_channel_no);
    body.push_u32_be(local_channel_no);
    body.push_u32_be(config.window_size);
    body.push_u32_be(config.maximum_packet_size);
    assert(contents(body) =~= open_confirmation(remote_channel_no, local_channel_no, *config));
    push_packet(buffer, &body);
}

/// The packet that asks for the authentication service.
pub open spec fn service_request() -> Seq<u8> {
    seq![msg::SERVICE_REQUEST] + ssh_string("ssh-userauth".spec_bytes())
}

/// How long the request for the authentication service is.
proof fn lemma_service_request_len()
    ensures
        service_request().len() == 17,
{
    reveal_strlit("ssh-userauth");
    assert(vstd::string::is_ascii("ssh-userauth"));
}

/// The server waits for an authentication request.
pub open spec fn awaits_auth_request<T: Transport>(s: SessionView<T>) -> bool {
    match s.encrypted {
        Some(e) => match e.state {
            EncryptedState::WaitingAuthRequest(_) => true,
            EncryptedState::WaitingServiceRequest { sent, accepted } => accepted,
            _ => false,
        },
        None => false,
    }
}

/// The session after the authentication service has been asked for, unless it had been.
pub open spec fn service_requested<T: Transport>(s: SessionView<T>) -> SessionView<T> {
    match s.encrypted {
        Some(e) => match e.state {
            EncryptedState::WaitingServiceRequest { sent, accepted } => if !sent {
                s.with(
                    EncryptedView {
                        state: EncryptedState::WaitingServiceRequest { sent: true, accepted },
                        ..e
                    },
                ).sends_now(service_request())
            } else {
                s
            },
            _ => s,
        },
        None => s,
    }
}

/// The authentication service has not been asked for.
pub open spec fn lacks_service<T: Transport>(s: SessionView<T>) -> bool {
    s.encrypted matches Some(e) && e.state matches EncryptedState::WaitingServiceRequest {
        sent,
        accepted,
    } && !sent
}

/// What is written when a user chooses a name and a method fits.
pub open spec fn auth_fits<T: Transport>(
    s: SessionView<T>,
    user: Seq<char>,
    method: Method<T>,
) -> bool {
    &&& awaits_auth_request(s) ==> s.room(4 + auth_request(user, method).len())
    &&& lacks_service(s) ==> s.write_buffer.len() + 21 <= buffer_max()
}

/// The session after its user has chosen a name and a method: the service is asked for, the
/// request is sent if the server waits for it, and both are noted for later.
pub open spec fn auth_chosen<T: Transport>(
    s: SessionView<T>,
    user: Seq<char>,
    method: Method<T>,
) -> SessionView<T> {
    let asked = service_requested(s);
    let sent = if awaits_auth_request(s) {
        asked.sends(auth_request(user, method))
    } else {
        asked
    };
    SessionView { auth_user: user, auth_method: Some(method), ..sent }
}

impl<T: Transport> Session<T> {
    /// Confirms a channel which the server has opened.
    pub fn confirm_channel_open(&mut self, remote_channel_no: u32, local_channel_no: u32)
        requires
            old(self)@.room(21),
        ensures
            final(self)@ == old(self)@.sends(
                open_confirmation(remote_channel_no, local_channel_no, old(self)@.config),
            ),
    {
        if let Some(enc) = &mut self.common.encrypted {
            client_confirm_channel_open(
                &mut enc.write,
                remote_channel_no,
                local_channel_no,
                &self.common.config,
            );
        }
        assert(self@ =~= old(self)@.sends(
            open_confirmation(remote_channel_no, local_channel_no, old(self)@.config),
        ));
    }

    /// Notes how the user wants to be authenticated, and asks for it as far as the server is
    /// ready. Returns whether the request itself was sent.
    pub fn write_auth_request_if_needed(&mut self, user: &str, meth: Method<T>) -> (is_waiting:
        bool)
        requires
            auth_fits(old(self)@, user@, meth),
        ensures
            is_waiting == awaits_auth_request(old(self)@),
            final(self)@ == auth_chosen(old(self)@, user@, meth),
    {
        let mut is_waiting = false;
        if let Some(enc) = &mut self.common.encrypted {
            match enc.state {
                EncryptedState::WaitingAuthRequest(_) => {
                    is_waiting = true;
                },
                EncryptedState::WaitingServiceRequest { sent, accepted } => {
                    if !sent {
                        let mut p = CryptoVec::new();
                        proof {
                            lemma_service_request_len();
                        }
                        p.push(msg::SERVICE_REQUEST);
                        extend_ssh_string(&mut p, "ssh-userauth".as_bytes());
                        assert(contents(p) =~= service_request());
                        push_packet(&mut self.common.write_buffer.buffer, &p);
                        enc.state = EncryptedState::WaitingServiceRequest { sent: true, accepted };
                    }
                    is_waiting = accepted;
                },
                EncryptedState::InitCompression | EncryptedState::Authenticated => {},
            }
            if is_waiting {
                enc.write_auth_request(user, &meth);
            }
        }
        self.common.auth_user = user.to_owned();
        self.common.auth_method = Some(meth);
        assert(self@ =~= auth_chosen(old(self)@, user@, meth));
        is_waiting
    }
}

/// A message for the queue of a channel that listens for forwarded connections.
pub struct Delivery<T: Transport> {
    pub listener: T::Sender,
    pub msg: OpenChannelMsg<T::Receiver>,
}

/// The parameters of a channel for a forwarded connection.
pub open spec fn forwarded_parameters(
    remote_channel: u32,
    id: u32,
    window_size: u32,
    max_packet_size: u32,
    config: Config,
) -> ParametersView {
    ParametersView {
        recipient_channel: remote_channel,
        sender_channel: ChannelId(id),
        recipient_window_size: window_size,
        sender_window_size: config.window_size,
        recipient_maximum_packet_size: max_packet_size,
        sender_maximum_packet_size: config.maximum_packet_size,
        confirmed: true,
        wants_reply: false,
        pending_data: Seq::empty(),
    }
}

/// The session after a channel for a forwarded connection has been made: it has the first free
/// number, its queue is known, and the server has been told.
pub open spec fn forwarded_channel_made<T: Transport>(
    s: SessionView<T>,
    remote_channel: u32,
    queue: T::Sender,
    window_size: u32,
    max_packet_size: u32,
) -> SessionView<T> {
    match s.encrypted {
        Some(e) => {
            let id = next_id(e.channels.dom(), e.last_channel_id);
            let p = forwarded_parameters(
                remote_channel,
                id,
                window_size,
                max_packet_size,
                s.config,
            );
            SessionView { channels: s.channels.insert(id, queue), ..s }.with(
                EncryptedView {
                    last_channel_id: id,
                    channels: e.channels.insert(id, p),
                    ..e
                },
            ).sends(open_confirmation(remote_channel, id, s.config))
        },
        None => s,
    }
}

/// The message that announces a channel for a forwarded connection.
pub open spec fn announcement<R>(
    id: u32,
    window_size: u32,
    max_packet_size: u32,
    receiver: R,
) -> OpenChannelMsg<R> {
    OpenChannelMsg::Open {
        id: ChannelId(id),
        max_packet_size,
        window_size,
        receiver: Some(receiver),
    }
}

/// The address that a forwarded connection was made to.
pub open spec fn forwarded_address(ip: IpAddr, port: u32) -> SocketAddr {
    SocketAddr { ip, port: port as u16 }
}

/// The channel whose queue is told of the connections to an address, if there is one.
pub open spec fn forward_listener<T: Transport>(
    s: SessionView<T>,
    address: SocketAddr,
) -> Option<u32> {
    if s.remote_forward_channels.contains_key(address) && s.channels.contains_key(
        s.remote_forward_channels[address].0,
    ) {
        Some(s.remote_forward_channels[address].0)
    } else {
        None
    }
}

/// Which channel is told of a connection to a forwarded port, and by what message.
pub open spec fn announced<T: Transport>(
    s: SessionView<T>,
    ip: IpAddr,
    port: u32,
    window: u32,
    max_packet: u32,
    receiver: T::Receiver,
) -> Option<(u32, OpenChannelMsg<T::Receiver>)> {
    match (forward_listener(s, forwarded_address(ip, port)), s.encrypted) {
        (Some(listener), Some(e)) => Some(
            (
                listener,
                announcement(
                    next_id(e.channels.dom(), e.last_channel_id),
                    window,
                    max_packet,
                    receiver,
                ),
            ),
        ),
        _ => None,
    }
}

/// If a channel listens for a connection, there is a number for its channel, and what is written
/// about it fits.
pub open spec fn forward_fits<T: Transport>(s: SessionView<T>, ip: IpAddr, port: u32) -> bool {
    forward_listener(s, forwarded_address(ip, port)) is Some ==> {
        &&& s.room(21)
        &&& s.encrypted matches Some(e) ==> has_free_id(e.channels.dom())
    }
}

impl<T: Transport> Session<T> {
    /// Makes a channel for a forwarded connection, and returns the message that announces it.
    pub fn create_forwarded_tcpip_channel(
        &mut self,
        remote_channel: u32,
        open_msg_sender: T::Sender,
        open_msg_receiver: T::Receiver,
        window_size: u32,
        max_packet_size: u32,
    ) -> (r: Result<OpenChannelMsg<T::Receiver>, Error>)
        requires
            old(self)@.room(21),
            old(self)@.encrypted matches Some(e) ==> has_free_id(e.channels.dom()),
        ensures
            final(self)@ == forwarded_channel_made(
                old(self)@,
                remote_channel,
                open_msg_sender,
                window_size,
                max_packet_size,
            ),
            match old(self)@.encrypted {
                Some(e) => r == Ok::<OpenChannelMsg<T::Receiver>, Error>(
                    announcement(
                        next_id(e.channels.dom(), e.last_channel_id),
                        window_size,
                        max_packet_size,
                        open_msg_receiver,
                    ),
                ),
                None => r == Err::<OpenChannelMsg<T::Receiver>, Error>(Error::Inconsistent),
            },
    {
        let ghost before = self@;
        if let Some(enc) = &mut self.common.encrypted {
            let ghost e = enc@;
            let id = enc.new_channel_id();
            self.channels.insert(id.0, open_msg_sender);
            let parameters = ChannelParameters {
                recipient_channel: remote_channel,
                sender_channel: id,
                recipient_window_size: window_size,
                sender_window_size: self.common.config.window_size,
                recipient_maximum_packet_size: max_packet_size,
                sender_maximum_packet_size: self.common.config.maximum_packet_size,
                confirmed: true,
                wants_reply: false,
                pending_data: VecDeque::new(),
            };
            assert(parameters@ =~= forwarded_parameters(
                remote_channel,
                id.0,
                window_size,
                max_packet_size,
                before.config,
            ));
            enc.channels.insert(id.0, parameters);
            assert(enc@.channels =~= e.channels.insert(id.0, parameters@));
            assert(enc@ =~= EncryptedView {
                last_channel_id: id.0,
                channels: e.channels.insert(id.0, parameters@),
                ..e
            });
            self.confirm_channel_open(remote_channel, id.0);
            assert(self@ =~= forwarded_channel_made(
                before,
                remote_channel,
                open_msg_sender,
                window_size,
                max_packet_size,
            ));
            Ok(
                OpenChannelMsg::Open {
                    id,
                    max_packet_size,
                    window_size,
                    receiver: Some(open_msg_receiver),
                },
            )
        } else {
            Err(Error::Inconsistent)
        }
    }

    /// Opens a channel for a connection to a forwarded port, if a channel listens for it. `ip` is
    /// the address that the packet of the server names; the two queue halves are those of the new
    /// channel.
    pub fn forwarded_tcpip_open(
        &mut self,
        ip: IpAddr,
        port: u32,
        sender_channel: u32,
        window: u32,
        max_packet: u32,
        open_msg_sender: T::Sender,
        open_msg_receiver: T::Receiver,
    ) -> (r: Result<Option<Delivery<T>>, Error>)
        requires
            forward_fits(old(self)@, ip, port),
        ensures
            match forward_listener(old(self)@, forwarded_address(ip, port)) {
                None => r == Ok::<Option<Delivery<T>>, Error>(None) && final(self)@ == old(self)@,
                Some(_) => match announced(
                    old(self)@,
                    ip,
                    port,
                    window,
                    max_packet,
                    open_msg_receiver,
                ) {
                    None => r == Err::<Option<Delivery<T>>, Error>(Error::Inconsistent)
                        && final(self)@ == old(self)@,
                    Some((listener, msg)) => {
                        &&& r is Ok
                        &&& r->Ok_0 is Some
                        &&& cloned(old(self)@.channels[listener], r->Ok_0->Some_0.listener)
                        &&& r->Ok_0->Some_0.msg == msg
                        &&& final(self)@ == forwarded_channel_made(
                            old(self)@,
                            sender_channel,
                            open_msg_sender,
                            window,
                            max_packet,
                        )
                    },
                },
            },
    {
        let local_addr = SocketAddr { ip, port: port as u16 };
        let listener = match self.remote_forward_channels.get(local_addr) {
            Some(id) => match self.channels.get(&id.0) {
                Some(queue) => queue.clone(),
                None => {
                    return Ok(None);
                },
            },
            None => {
                return Ok(None);
            },
        };
        let msg = self.create_forwarded_tcpip_channel(
            sender_channel,
            open_msg_sender,
            open_msg_receiver,
            window,
            max_packet,
        )?;
        Ok(Some(Delivery { listener, msg }))
    }
}

/// What a client does with a packet of the server once it is authenticated: the session
/// afterwards and the next step, or the reason to give up.
pub open spec fn handled<T: Transport>(s: SessionView<T>, p: PacketView) -> Result<
    (SessionView<T>, StepView<T>),
    Error,
> {
    match p {
        PacketView::OpenConfirmation { id, recipient_channel, window, max_packet } => {
            match s.encrypted {
                Some(e) => if e.channels.contains_key(id) {
                    let confirmed = ParametersView {
                        recipient_channel,
                        recipient_window_size: window,
                        recipient_maximum_packet_size: max_packet,
                        confirmed: true,
                        ..e.channels[id]
                    };
                    Ok(
                        (
                            s.with(e.with_channel(id, confirmed)),
                            StepView::Call(
                                CallbackView::OpenConfirmation {
                                    id: ChannelId(id),
                                    max_packet,
                                    window,
                                },
                            ),
                        ),
                    )
                } else {
                    Err(Error::Inconsistent)
                },
                None => Err(Error::Inconsistent),
            }
        },
        PacketView::Close { id } => Ok(
            (s.without(id), StepView::Call(CallbackView::Close { id: ChannelId(id) })),
        ),
        PacketView::Eof { id } => Ok(
            (s, StepView::Call(CallbackView::Eof { id: ChannelId(id) })),
        ),
        PacketView::OpenFailure { id, reason_code, description, language } => Ok(
            (
                s.without(id),
                StepView::Call(
                    CallbackView::OpenFailure {
                        id: ChannelId(id),
                        reason: failure_numbered(reason_code)->Some_0,
                        description,
                        language,
                    },
                ),
            ),
        ),
        PacketView::Data { id, data } => Ok(
            (
                data_received(s, id, data.len() as u32),
                StepView::Call(
                    CallbackView::Data {
                        id: ChannelId(id),
                        data,
                        window_adjusted: data_adjusts(s, id, data.len() as u32),
                    },
                ),
            ),
        ),
        PacketView::ExtendedData { id, code, data } => Ok(
            (
                data_received(s, id, data.len() as u32),
                StepView::Call(
                    CallbackView::ExtendedData {
                        id: ChannelId(id),
                        code,
                        data,
                        window_adjusted: data_adjusts(s, id, data.len() as u32),
                    },
                ),
            ),
        ),
        PacketView::Request { id, request } => Ok((s, requested(ChannelId(id), request))),
        PacketView::WindowAdjust { id, amount } => match s.encrypted {
            Some(e) => if e.channels.contains_key(id) {
                let new_size = (e.channels[id].recipient_window_size + amount) as u32;
                Ok(
                    (
                        s.with(
                            e.with_channel(
                                id,
                                ParametersView {
                                    recipient_window_size: new_size,
                                    ..e.channels[id]
                                },
                            ),
                        ),
                        StepView::Call(
                            CallbackView::WindowAdjusted { id: ChannelId(id), new_size },
                        ),
                    ),
                )
            } else {
                Err(Error::WrongChannel)
            },
            None => Ok(
                (
                    s,
                    StepView::Call(
                        CallbackView::WindowAdjusted { id: ChannelId(id), new_size: 0 },
                    ),
                ),
            ),
        },
        PacketView::Success { id } => Ok(
            (s, StepView::Call(CallbackView::Success { id: ChannelId(id) })),
        ),
        PacketView::Open { sender_channel, window, max_packet, kind } => Ok(
            open_handled(s, sender_channel, window, max_packet, kind),
        ),
        PacketView::GlobalRequest | PacketView::Unknown => Ok((s, StepView::Done)),
    }
}

/// The session after `n` bytes have come in on a channel.
pub open spec fn data_received<T: Transport>(
    s: SessionView<T>,
    id: u32,
    n: u32,
) -> SessionView<T> {
    match s.encrypted {
        Some(e) => s.with(received(e, id, n, s.config.window_size)),
        None => s,
    }
}

/// `n` bytes that come in on a channel lead to an adjustment of its window.
pub open spec fn data_adjusts<T: Transport>(s: SessionView<T>, id: u32, n: u32) -> bool {
    match s.encrypted {
        Some(e) => window_low(e, id, n, s.config.window_size),
        None => false,
    }
}

/// What the user is told of a request about a channel.
pub open spec fn requested<T: Transport>(id: ChannelId, request: RequestView) -> StepView<T> {
    match request {
        RequestView::ForwardedTcpip {
            connected_address,
            connected_port,
            originator_address,
            originator_port,
        } => StepView::Call(
            CallbackView::OpenForwardedTcpip {
                id,
                connected_address,
                connected_port,
                originator_address,
                originator_port,
            },
        ),
        RequestView::XonXoff { client_can_do } => StepView::Call(
            CallbackView::XonXoff { id, client_can_do },
        ),
        RequestView::ExitStatus { exit_status } => StepView::Call(
            CallbackView::ExitStatus { id, exit_status },
        ),
        RequestView::ExitSignal { signal, core_dumped, error_message, lang_tag } => StepView::Call(
            CallbackView::ExitSignal { id, signal, core_dumped, error_message, lang_tag },
        ),
        RequestView::Unknown => StepView::Done,
    }
}

/// What a client does about a connection to a forwarded port: `ip` is the address that the packet
/// names, if it is one. Any other text is ignored.
pub open spec fn forwarded_asked<T: Transport>(
    ip: Option<IpAddr>,
    port: u32,
    sender_channel: u32,
    window: u32,
    max_packet: u32,
) -> StepView<T> {
    match ip {
        Some(ip) => StepView::ForwardedTcpip { ip, port, sender_channel, window, max_packet },
        None => StepView::Done,
    }
}

/// What a client does when the server wants to open a channel: a connection to a forwarded port
/// is looked into, any other kind is refused.
pub open spec fn open_handled<T: Transport>(
    s: SessionView<T>,
    sender_channel: u32,
    window: u32,
    max_packet: u32,
    kind: OpenKindView,
) -> (SessionView<T>, StepView<T>) {
    match kind {
        OpenKindView::ForwardedTcpip { address, port, originator_address, originator_port } => (
            s,
            forwarded_asked(ip_in(address), port, sender_channel, window, max_packet),
        ),
        OpenKindView::Unknown => (s.sends(open_refusal(sender_channel)), StepView::Done),
    }
}

/// What a client does with the bytes of a packet once it is authenticated.
pub open spec fn read_authenticated<T: Transport>(s: SessionView<T>, b: Seq<u8>) -> Result<
    (SessionView<T>, StepView<T>),
    Error,
> {
    match parse(b) {
        Ok(p) => handled(s, p),
        Err(e) => Err(e),
    }
}

/// A packet that a client can read once it is authenticated: it is not empty, the refusal of a
/// channel gives a known reason, and no window outgrows its 32 bits.
pub open spec fn readable<T: Transport>(s: SessionView<T>, b: Seq<u8>) -> bool {
    &&& b.len() > 0
    &&& b[0] == msg::CHANNEL_OPEN_FAILURE ==> (u32_at(b, 5) matches Some(code)
        ==> failure_numbered(code) is Some)
    &&& parse(b) matches Ok(PacketView::WindowAdjust { id, amount }) ==> (
    s.encrypted matches Some(e) ==> (e.channels.contains_key(id)
        ==> e.channels[id].recipient_window_size + amount <= u32::MAX))
}

impl<T: Transport> Session<T> {
    /// Takes data that has come in on a channel off its window.
    fn data_came_in(&mut self, id: u32, data: &[u8]) -> (r: bool)
        requires
            old(self)@.room(13),
        ensures
            r == data_adjusts(old(self)@, id, data@.len() as u32),
            final(self)@ == data_received(old(self)@, id, data@.len() as u32),
    {
        let target: u32 = self.common.config.window_size;
        let mut r = false;
        if let Some(enc) = &mut self.common.encrypted {
            r = enc.adjust_window_size(ChannelId(id), data, target);
        }
        assert(self@ =~= data_received(old(self)@, id, data@.len() as u32));
        r
    }

    /// Forgets a channel.
    fn forget(&mut self, id: u32)
        ensures
            final(self)@ == old(self)@.without(id),
    {
        if let Some(enc) = &mut self.common.encrypted {
            let ghost e = enc@;
            enc.channels.remove(&id);
            assert(enc@.channels =~= e.channels.remove(id));
        }
        assert(self@ =~= old(self)@.without(id));
    }

    /// Lets the user of the session choose another target for the window of a channel, after the
    /// window has been adjusted.
    pub fn window_target_chosen(&mut self, next_window: u32)
        ensures
            final(self)@ == (SessionView {
                target_window_size: if next_window > 0 {
                    next_window
                } else {
                    old(self)@.target_window_size
                },
                ..old(self)@
            }),
    {
        if next_window > 0 {
            self.target_window_size = next_window;
        }
    }

    /// Deals with a connection to a forwarded port: `ip` is the address that the packet names, if
    /// it is one.
    pub fn forwarded_tcpip_asked<'a>(
        ip: Option<IpAddr>,
        port: u32,
        sender_channel: u32,
        window: u32,
        max_packet: u32,
    ) -> (r: Step<'a, T>)
        ensures
            r@ == forwarded_asked::<T>(ip, port, sender_channel, window, max_packet),
    {
        match ip {
            Some(ip) => Step::ForwardedTcpip { ip, port, sender_channel, window, max_packet },
            None => Step::Done,
        }
    }

    /// Deals with a channel that the server wants to open.
    pub fn client_handle_channel_open<'a>(
        self,
        sender_channel: u32,
        window: u32,
        max_packet: u32,
        kind: OpenKind<'a>,
    ) -> (r: (Session<T>, Step<'a, T>))
        requires
            self@.room(43),
        ensures
            (r.0@, r.1@) == open_handled(self@, sender_channel, window, max_packet, kind@),
    {
        let mut s = self;
        match kind {
            OpenKind::ForwardedTcpip { address, port, originator_address, originator_port } => {
                let ip = read_ip(address);
                (
                    s,
                    Session::forwarded_tcpip_asked(ip, port, sender_channel, window, max_packet),
                )
            },
            OpenKind::Unknown => {
                if let Some(enc) = &mut s.common.encrypted {
                    let ghost e = enc@;
                    let mut body = CryptoVec::new();
                    proof {
                        lemma_open_refusal_len(sender_channel);
                    }
                    body.push(msg::CHANNEL_OPEN_FAILURE);
                    body.push_u32_be(sender_channel);
                    body.push_u32_be(3);
                    extend_ssh_string(&mut body, "Unknown channel type".as_bytes());
                    extend_ssh_string(&mut body, "en".as_bytes());
                    assert(contents(body) =~= open_refusal(sender_channel));
                    push_packet(&mut enc.write, &body);
                    assert(enc@ =~= e.sends(open_refusal(sender_channel)));
                }
                assert(s@ =~= self@.sends(open_refusal(sender_channel)));
                (s, Step::Done)
            },
        }
    }

    /// Notes that the server has opened a channel.
    fn confirmed(&mut self, id: u32, recipient_channel: u32, window: u32, max_packet: u32) -> (r:
        Result<(), Error>)
        ensures
            match handled(
                old(self)@,
                PacketView::OpenConfirmation { id, recipient_channel, window, max_packet },
            ) {
                Ok((s, _)) => r is Ok && final(self)@ == s,
                Err(e) => r == Err::<(), Error>(e),
            },
    {
        match &mut self.common.encrypted {
            Some(enc) => {
                let ghost e = enc@;
                match enc.channels.remove(&id) {
                    Some(parameters) => {
                        let mut parameters = parameters;
                        assert(e.channels[id] == parameters@);
                        parameters.recipient_channel = recipient_channel;
                        parameters.recipient_window_size = window;
                        parameters.recipient_maximum_packet_size = max_packet;
                        parameters.confirmed = true;
                        enc.channels.insert(id, parameters);
                        assert(enc@.channels =~= e.channels.insert(id, parameters@));
                        assert(enc@ =~= e.with_channel(id, parameters@));
                    },
                    None => {
                        return Err(Error::Inconsistent);
                    },
                }
            },
            None => {
                return Err(Error::Inconsistent);
            },
        }
        Ok(())
    }

    /// Notes that the server takes `amount` more bytes on a channel, and returns how many it
    /// takes now.
    fn window_opened(&mut self, id: u32, amount: u32) -> (r: Result<u32, Error>)
        requires
            old(self)@.encrypted matches Some(e) ==> (e.channels.contains_key(id)
                ==> e.channels[id].recipient_window_size + amount <= u32::MAX),
        ensures
            match handled(old(self)@, PacketView::WindowAdjust { id, amount }) {
                Ok((s, step)) => {
                    &&& r is Ok
                    &&& final(self)@ == s
                    &&& step == StepView::<T>::Call(
                        CallbackView::WindowAdjusted { id: ChannelId(id), new_size: r->Ok_0 },
                    )
                },
                Err(e) => r == Err::<u32, Error>(e),
            },
    {
        let mut new_size: u32 = 0;
        if let Some(enc) = &mut self.common.encrypted {
            let ghost e = enc@;
            match enc.channels.remove(&id) {
                Some(parameters) => {
                    let mut parameters = parameters;
                    assert(e.channels[id] == parameters@);
                    new_size = parameters.recipient_window_size + amount;
                    parameters.recipient_window_size = new_size;
                    enc.channels.insert(id, parameters);
                    assert(enc@.channels =~= e.channels.insert(id, parameters@));
                    assert(enc@ =~= e.with_channel(id, parameters@));
                },
                None => {
                    return Err(Error::WrongChannel);
                },
            }
        }
        Ok(new_size)
    }

    /// Deals with a packet of the server once the client is authenticated.
    fn handle<'a>(self, packet: Packet<'a>) -> (r: Result<(Session<T>, Step<'a, T>), Error>)
        requires
            self@.room(43),
            packet@ matches PacketView::OpenFailure { reason_code, .. } ==> failure_numbered(
                reason_code,
            ) is Some,
            packet@ matches PacketView::WindowAdjust { id, amount } ==> (
            self@.encrypted matches Some(e) ==> (e.channels.contains_key(id)
                ==> e.channels[id].recipient_window_size + amount <= u32::MAX)),
        ensures
            match r {
                Ok((s, step)) => handled(self@, packet@) == Ok::<
                    (SessionView<T>, StepView<T>),
                    Error,
                >((s@, step@)),
                Err(e) => handled(self@, packet@) == Err::<(SessionView<T>, StepView<T>), Error>(
                    e,
                ),
            },
    {
        let mut s = self;
        match packet {
            Packet::OpenConfirmation { id, recipient_channel, window, max_packet } => {
                s.confirmed(id, recipient_channel, window, max_packet)?;
                Ok(
                    (
                        s,
                        Step::Call(
                            Callback::OpenConfirmation { id: ChannelId(id), max_packet, window },
                        ),
                    ),
                )
            },
            Packet::Close { id } => {
                s.forget(id);
                Ok((s, Step::Call(Callback::Close { id: ChannelId(id) })))
            },
            Packet::Eof { id } => Ok((s, Step::Call(Callback::Eof { id: ChannelId(id) }))),
            Packet::OpenFailure { id, reason_code, description, language } => {
                let reason = ChannelOpenFailure::from_u32(reason_code).unwrap();
                s.forget(id);
                Ok(
                    (
                        s,
                        Step::Call(
                            Callback::OpenFailure {
                                id: ChannelId(id),
                                reason,
                                description,
                                language,
                            },
                        ),
                    ),
                )
            },
            Packet::Data { id, data } => {
                let window_adjusted = s.data_came_in(id, data);
                Ok((s, Step::Call(Callback::Data { id: ChannelId(id), data, window_adjusted })))
            },
            Packet::ExtendedData { id, code, data } => {
                let window_adjusted = s.data_came_in(id, data);
                Ok(
                    (
                        s,
                        Step::Call(
                            Callback::ExtendedData {
                                id: ChannelId(id),
                                code,
                                data,
                                window_adjusted,
                            },
                        ),
                    ),
                )
            },
            Packet::Request { id, request } => {
                let id = ChannelId(id);
                let step = match request {
                    Request::ForwardedTcpip {
                        connected_address,
                        connected_port,
                        originator_address,
                        originator_port,
                    } => Step::Call(
                        Callback::OpenForwardedTcpip {
                            id,
                            connected_address,
                            connected_port,
                            originator_address,
                            originator_port,
                        },
                    ),
                    Request::XonXoff { client_can_do } => Step::Call(
                        Callback::XonXoff { id, client_can_do },
                    ),
                    Request::ExitStatus { exit_status } => Step::Call(
                        Callback::ExitStatus { id, exit_status },
                    ),
                    Request::ExitSignal { signal, core_dumped, error_message, lang_tag } => {
                        Step::Call(
                            Callback::ExitSignal {
                                id,
                                signal,
                                core_dumped,
                                error_message,
                                lang_tag,
                            },
                        )
                    },
                    Request::Unknown => Step::Done,
                };
                Ok((s, step))
            },
            Packet::WindowAdjust { id, amount } => {
                let new_size: u32 = s.window_opened(id, amount)?;
                Ok((s, Step::Call(Callback::WindowAdjusted { id: ChannelId(id), new_size })))
            },
            Packet::Success { id } => Ok((s, Step::Call(Callback::Success { id: ChannelId(id) }))),
            Packet::Open { sender_channel, window, max_packet, kind } => {
                Ok(s.client_handle_channel_open(sender_channel, window, max_packet, kind))
            },
            Packet::GlobalRequest | Packet::Unknown => Ok((s, Step::Done)),
        }
    }

    /// Reads a packet of the server once the client is authenticated.
    pub fn client_read_authenticated<'a>(self, buf: &'a [u8]) -> (r: Result<
        (Session<T>, Step<'a, T>),
        Error,
    >)
        requires
            readable(self@, buf@),
            self@.room(43),
        ensures
            match r {
                Ok((s, step)) => read_authenticated(self@, buf@) == Ok::<
                    (SessionView<T>, StepView<T>),
                    Error,
                >((s@, step@)),
                Err(e) => read_authenticated(self@, buf@) == Err::<
                    (SessionView<T>, StepView<T>),
                    Error,
                >(e),
            },
    {
        let packet = Packet::read(buf)?;
        self.handle(packet)
    }
}

/// What a client does when the server announces its algorithms. A key exchange that has come
/// further is dropped.
pub open spec fn rekey_requested<T: Transport>(s: SessionView<T>) -> (
    SessionView<T>,
    StepView<T>,
) {
    match s.encrypted {
        Some(e) => {
            let dropped = EncryptedView { rekey: None, ..e };
            match e.rekey {
                Some(Kex::KexInit(kexinit)) => (
                    s.with(dropped),
                    StepView::ParseKexInit { kexinit },
                ),
                _ => match e.exchange {
                    Some(exchange) => (
                        s.with(EncryptedView { exchange: None, ..dropped }),
                        StepView::ReceiveRekey { exchange },
                    ),
                    None => (s.with(dropped), StepView::Done),
                },
            }
        },
        None => (s, StepView::Done),
    }
}

/// The session after this side has sent its half of a key exchange.
pub open spec fn half_sent<T: Transport>(
    s: SessionView<T>,
    ignore_guessed: bool,
    state: T::DhDone,
) -> SessionView<T> {
    match s.encrypted {
        Some(e) => s.with(
            EncryptedView { rekey: Some(Kex::KexDhDone { ignore_guessed, state }), ..e },
        ),
        None => s,
    }
}

/// The session after the server's key has been checked: the outcome is noted, and the server is
/// told that the new keys will be used.
pub open spec fn key_checked<T: Transport>(s: SessionView<T>, kex: Kex<T>) -> SessionView<T> {
    match s.encrypted {
        Some(e) => s.with(EncryptedView { rekey: Some(kex), ..e }).sends_now(seq![msg::NEWKEYS]),
        None => s,
    }
}

/// The state of an authentication that has just begun.
pub open spec fn auth_begun() -> AuthRequest {
    AuthRequest {
        methods: MethodSet::spec_all(),
        partial_success: false,
        current: None,
        rejection_count: 0,
    }
}

/// What a client does with a packet while it waits for the authentication service: once the
/// server has accepted, the request of the user is sent, if the user has chosen one.
pub open spec fn service_answered<T: Transport>(
    s: SessionView<T>,
    e: EncryptedView<T>,
    sent: bool,
    accepted: bool,
    b: Seq<u8>,
) -> Result<(SessionView<T>, StepView<T>), Error> {
    if b[0] == msg::SERVICE_ACCEPT {
        match string_at(b, 1) {
            Some(name) => if name == "ssh-userauth".spec_bytes() {
                match s.auth_method {
                    Some(method) => Ok(
                        (
                            s.with(
                                EncryptedView {
                                    state: EncryptedState::WaitingAuthRequest(auth_begun()),
                                    ..e
                                },
                            ).sends(auth_request(s.auth_user, method)),
                            StepView::Done,
                        ),
                    ),
                    None => Ok(
                        (
                            s.with(
                                EncryptedView {
                                    state: EncryptedState::WaitingServiceRequest {
                                        sent,
                                        accepted: true,
                                    },
                                    ..e
                                },
                            ),
                            StepView::Done,
                        ),
                    ),
                }
            } else {
                Ok((s, StepView::Done))
            },
            None => Err(Error::IndexOutOfBounds),
        }
    } else {
        Err(Error::Inconsistent)
    }
}

/// The state of an authentication after the server has accepted the public key.
pub open spec fn key_accepted(a: AuthRequest) -> AuthRequest {
    match a.current {
        Some(CurrentRequest::PublicKey { sent_pk_ok }) => AuthRequest {
            current: Some(CurrentRequest::PublicKey { sent_pk_ok: true }),
            ..a
        },
        _ => a,
    }
}

/// What a client does when the server has accepted its public key: it has the request signed.
/// Whatever the method was, it is used up.
pub open spec fn key_handled<T: Transport>(
    s: SessionView<T>,
    e: EncryptedView<T>,
    a: AuthRequest,
) -> (SessionView<T>, StepView<T>) {
    let used = SessionView { auth_method: None, ..s }.with(
        EncryptedView { state: EncryptedState::WaitingAuthRequest(key_accepted(a)), ..e },
    );
    let emptied = SessionView { buffer: Seq::empty(), ..used };
    let offset = ssh_string(e.session_id).len() as int;
    match s.auth_method {
        Some(Method::PublicKey { key, pair }) => (
            emptied,
            StepView::Sign { pair, data: to_sign(e.session_id, s.auth_user, key), offset },
        ),
        Some(Method::FuturePublicKey { key }) => (
            emptied,
            StepView::RequestSignature {
                key,
                data: to_sign(e.session_id, s.auth_user, key),
                offset,
            },
        ),
        _ => (used, StepView::Done),
    }
}

/// What a client does with a packet while its authentication is under way.
pub open spec fn auth_answered<T: Transport>(
    s: SessionView<T>,
    e: EncryptedView<T>,
    a: AuthRequest,
    b: Seq<u8>,
) -> Result<(SessionView<T>, StepView<T>), Error> {
    if b[0] == msg::USERAUTH_SUCCESS {
        Ok(
            (
                s.with(EncryptedView { state: EncryptedState::InitCompression, ..e }),
                StepView::AuthSuccess,
            ),
        )
    } else if b[0] == msg::USERAUTH_BANNER {
        match string_at(b, 1) {
            Some(banner) => match text_of(banner) {
                Ok(banner) => Ok((s, StepView::AuthBanner { banner })),
                Err(_) => Ok((s, StepView::Done)),
            },
            None => Err(Error::IndexOutOfBounds),
        }
    } else if b[0] == msg::USERAUTH_FAILURE {
        match string_at(b, 1) {
            Some(list) => Ok(
                (
                    SessionView { auth_method: None, ..s }.with(
                        EncryptedView {
                            state: EncryptedState::WaitingAuthRequest(
                                AuthRequest { methods: MethodSet::listed(list), ..a },
                            ),
                            ..e
                        },
                    ),
                    StepView::AuthFailure,
                ),
            ),
            None => Err(Error::IndexOutOfBounds),
        }
    } else if b[0] == msg::USERAUTH_PK_OK {
        Ok(key_handled(s, e, a))
    } else {
        Err(Error::Inconsistent)
    }
}

/// What a client does with a packet of an encrypted session: the session afterwards and the next
/// step, or the reason to give up.
pub open spec fn read_encrypted<T: Transport>(s: SessionView<T>, b: Seq<u8>) -> Result<
    (SessionView<T>, StepView<T>),
    Error,
> {
    if b[0] == msg::KEXINIT {
        Ok(rekey_requested(s))
    } else {
        match s.encrypted {
            Some(e) => match e.rekey {
                Some(Kex::KexDhDone { ignore_guessed, state }) => if ignore_guessed {
                    Ok(
                        (
                            s.with(
                                EncryptedView {
                                    rekey: Some(Kex::KexDhDone { ignore_guessed: false, state }),
                                    ..e
                                },
                            ),
                            StepView::Done,
                        ),
                    )
                } else if b[0] == msg::KEX_ECDH_REPLY {
                    Ok(
                        (
                            s.with(EncryptedView { rekey: None, ..e }),
                            StepView::CheckServerKey { dh_done: state },
                        ),
                    )
                } else {
                    Err(Error::Inconsistent)
                },
                Some(Kex::NewKeys { exchange, cipher }) => if b[0] == msg::NEWKEYS {
                    Ok(
                        (
                            SessionView { bytes: 0, cipher, ..s }.with(
                                EncryptedView { rekey: None, exchange: Some(exchange), ..e },
                            ),
                            StepView::KeysInstalled,
                        ),
                    )
                } else {
                    Err(Error::Kex)
                },
                _ => match e.state {
                    EncryptedState::WaitingServiceRequest { sent, accepted } => service_answered(
                        s,
                        e,
                        sent,
                        accepted,
                        b,
                    ),
                    EncryptedState::WaitingAuthRequest(a) => auth_answered(s, e, a, b),
                    EncryptedState::InitCompression => arbitrary(),
                    EncryptedState::Authenticated => read_authenticated(s, b),
                },
            },
            None => Ok((s, StepView::Done)),
        }
    }
}

/// No key exchange waits for its next packet.
pub open spec fn kex_idle<T: Transport>(e: EncryptedView<T>) -> bool {
    e.rekey is None || e.rekey->Some_0 is KexInit
}

/// The packet is a request about a channel whose name can be read. The user of the session is
/// fetched for it before its other fields are read, and is gone if these are malformed.
pub open spec fn fetches_user<T: Transport>(s: SessionView<T>, b: Seq<u8>) -> bool {
    &&& b.len() > 0
    &&& b[0] == msg::CHANNEL_REQUEST
    &&& s.encrypted matches Some(e) && kex_idle(e) && e.state == EncryptedState::Authenticated
    &&& u32_at(b, 1) is Some
    &&& string_at(b, 5) is Some
}

/// A packet that a client can read: it is not empty, a key exchange happens in an encrypted
/// session, no packet comes between the end of the authentication and the start of the
/// compression, and a packet of an authenticated session is readable.
pub open spec fn acceptable<T: Transport>(s: SessionView<T>, b: Seq<u8>) -> bool {
    &&& b.len() > 0
    &&& b[0] == msg::KEXINIT ==> s.encrypted is Some
    &&& b[0] != msg::KEXINIT ==> (s.encrypted matches Some(e) ==> (kex_idle(e) ==> {
        &&& e.state != EncryptedState::InitCompression
        &&& e.state == EncryptedState::Authenticated ==> readable(s, b)
    }))
}

/// What a client may have to write about a packet fits its buffers.
pub open spec fn fits<T: Transport>(s: SessionView<T>) -> bool {
    &&& s.room(43)
    &&& s.encrypted matches Some(e) ==> (s.auth_method matches Some(method) ==> {
        &&& e.room(4 + auth_request(s.auth_user, method).len())
        &&& method matches Method::PublicKey { key, .. } ==> to_sign(
            e.session_id,
            s.auth_user,
            key,
        ).len() <= buffer_max()
        &&& method matches Method::FuturePublicKey { key } ==> to_sign(
            e.session_id,
            s.auth_user,
            key,
        ).len() <= buffer_max()
    })
}

impl<T: Transport> Session<T> {
    /// Deals with the server's algorithms.
    fn rekey<'a>(self) -> (r: (Session<T>, Step<'a, T>))
        ensures
            (r.0@, r.1@) == rekey_requested(self@),
    {
        let ghost before = self@;
        let mut s = self;
        let step = match &mut s.common.encrypted {
            Some(enc) => {
                let ghost e = enc@;
                match enc.rekey.take() {
                    Some(Kex::KexInit(kexinit)) => {
                        assert(enc@ =~= EncryptedView { rekey: None, ..e });
                        Step::ParseKexInit { kexinit }
                    },
                    _ => match enc.exchange.take() {
                        Some(exchange) => {
                            assert(enc@ =~= EncryptedView { rekey: None, exchange: None, ..e });
                            Step::ReceiveRekey { exchange }
                        },
                        None => {
                            assert(enc@ =~= EncryptedView { rekey: None, ..e });
                            Step::Done
                        },
                    },
                }
            },
            None => Step::Done,
        };
        assert(s@ =~= rekey_requested(before).0);
        (s, step)
    }

    /// Notes that this side has sent its half of a key exchange.
    pub fn rekey_parsed(&mut self, ignore_guessed: bool, state: T::DhDone)
        ensures
            final(self)@ == half_sent(old(self)@, ignore_guessed, state),
    {
        if let Some(enc) = &mut self.common.encrypted {
            let ghost e = enc@;
            enc.rekey = Some(Kex::KexDhDone { ignore_guessed, state });
            assert(enc@ =~= EncryptedView {
                rekey: Some(Kex::KexDhDone { ignore_guessed, state }),
                ..e
            });
        }
    }

    /// Notes the outcome of the check of the server's key, and tells the server that the new
    /// keys will be used.
    pub fn server_key_checked(&mut self, kex: Kex<T>)
        requires
            old(self)@.write_buffer.len() + 5 <= buffer_max(),
        ensures
            final(self)@ == key_checked(old(self)@, kex),
    {
        if let Some(enc) = &mut self.common.encrypted {
            let ghost e = enc@;
            enc.rekey = Some(kex);
            let mut body = CryptoVec::new();
            body.push(msg::NEWKEYS);
            assert(contents(body) =~= seq![msg::NEWKEYS]);
            push_packet(&mut self.common.write_buffer.buffer, &body);
            assert(enc@ =~= EncryptedView { rekey: Some(kex), ..e });
        }
    }

    /// Decides whether the session goes on after the user has been told that the server has let
    /// them in; `sent` says whether the user could be told.
    pub fn auth_success_reported(&self, sent: bool) -> (r: Result<(), Error>)
        ensures
            r == (if sent {
                Ok::<(), Error>(())
            } else {
                Err::<(), Error>(Error::SendError)
            }),
    {
        if sent {
            Ok(())
        } else {
            Err(Error::SendError)
        }
    }

    /// Decides whether the session waits for a signature after the owner of the key has been
    /// asked for it; `sent` says whether the owner could be asked.
    pub fn signature_requested(&self, sent: bool) -> (r: Result<(), Error>)
        ensures
            r == (if sent {
                Ok::<(), Error>(())
            } else {
                Err::<(), Error>(Error::SendError)
            }),
    {
        if sent {
            Ok(())
        } else {
            Err(Error::SendError)
        }
    }

    /// Decides whether the session goes on after the user has been told that the server has not
    /// let them in; `sent` says whether the user could be told.
    pub fn auth_failure_reported(&self, sent: bool) -> (r: Result<(), Error>)
        ensures
            r == (if !sent {
                Err::<(), Error>(Error::SendError)
            } else if self@.encrypted matches Some(e) && e.state
                matches EncryptedState::WaitingAuthRequest(a) && a.methods
                == MethodSet::spec_empty() {
                Err::<(), Error>(Error::NoAuthMethod)
            } else {
                Ok::<(), Error>(())
            }),
    {
        if !sent {
            return Err(Error::SendError);
        }
        if let Some(enc) = &self.common.encrypted {
            if let EncryptedState::WaitingAuthRequest(a) = enc.state {
                if a.methods.is_empty() {
                    return Err(Error::NoAuthMethod);
                }
            }
        }
        Ok(())
    }

    /// Sends a request that has been signed: `data` from `offset` on.
    pub fn signed(&mut self, data: CryptoVec, offset: usize)
        requires
            offset <= contents(data).len(),
            old(self)@.room((4 + contents(data).len() - offset) as nat),
        ensures
            final(self)@ == (SessionView { buffer: contents(data), ..old(self)@ }).sends(
                contents(data).skip(offset as int),
            ),
    {
        if let Some(enc) = &mut self.common.encrypted {
            enc.client_send_signature(&data, offset);
        }
        self.common.buffer = data;
        assert(self@ =~= (SessionView { buffer: contents(data), ..old(self)@ }).sends(
            contents(data).skip(offset as int),
        ));
    }

    /// Sends a request that the owner of the key was asked to sign, unless its length is still
    /// `unsigned`, the length before.
    pub fn signed_by_owner(&mut self, data: CryptoVec, offset: usize, unsigned: usize)
        requires
            contents(data).len() != unsigned ==> offset <= contents(data).len() && old(self)@.room(
                (4 + contents(data).len() - offset) as nat,
            ),
        ensures
            final(self)@ == (if contents(data).len() != unsigned {
                (SessionView { buffer: contents(data), ..old(self)@ }).sends(
                    contents(data).skip(offset as int),
                )
            } else {
                SessionView { buffer: contents(data), ..old(self)@ }
            }),
    {
        if data.len() != unsigned {
            self.signed(data, offset);
        } else {
            self.common.buffer = data;
        }
    }

    /// Reads the answer to the request for the authentication service.
    fn read_service_answer<'a>(self, sent: bool, accepted: bool, buf: &'a [u8]) -> (r: Result<
        (Session<T>, Step<'a, T>),
        Error,
    >)
        requires
            buf@.len() > 0,
            fits(self@),
            self@.encrypted matches Some(e) && e.state == (EncryptedState::WaitingServiceRequest {
                sent,
                accepted,
            }),
        ensures
            match r {
                Ok((s, step)) => service_answered(
                    self@,
                    self@.encrypted->Some_0,
                    sent,
                    accepted,
                    buf@,
                ) == Ok::<(SessionView<T>, StepView<T>), Error>((s@, step@)),
                Err(e) => service_answered(
                    self@,
                    self@.encrypted->Some_0,
                    sent,
                    accepted,
                    buf@,
                ) == Err::<(SessionView<T>, StepView<T>), Error>(e),
            },
    {
        let ghost before = self@;
        let ghost e = before.encrypted->Some_0;
        let mut s = self;
        if buf[0] != msg::SERVICE_ACCEPT {
            return Err(Error::Inconsistent);
        }
        let mut r = reader(buf, 1);
        let name = r.read_string()?;
        if same_bytes(name, "ssh-userauth".as_bytes()) {
            if let Some(enc) = &mut s.common.encrypted {
                enc.state = EncryptedState::WaitingServiceRequest { sent, accepted: true };
                if let Some(meth) = &s.common.auth_method {
                    let auth_request = AuthRequest {
                        methods: MethodSet::all(),
                        partial_success: false,
                        current: None,
                        rejection_count: 0,
                    };
                    if enc.write_auth_request(s.common.auth_user.as_str(), meth) {
                        enc.state = EncryptedState::WaitingAuthRequest(auth_request);
                    }
                }
            }
            proof {
                match before.auth_method {
                    Some(method) => {
                        assert(s@ =~= before.with(
                            EncryptedView {
                                state: EncryptedState::WaitingAuthRequest(auth_begun()),
                                ..e
                            },
                        ).sends(auth_request(before.auth_user, method)));
                    },
                    None => {
                        assert(s@ =~= before.with(
                            EncryptedView {
                                state: EncryptedState::WaitingServiceRequest {
                                    sent,
                                    accepted: true,
                                },
                                ..e
                            },
                        ));
                    },
                }
            }
        }
        Ok((s, Step::Done))
    }

    /// Has a request with an accepted public key signed.
    fn key_was_accepted<'a>(self, a: AuthRequest) -> (r: (Session<T>, Step<'a, T>))
        requires
            fits(self@),
            self@.encrypted matches Some(e) && e.state == EncryptedState::WaitingAuthRequest(a),
        ensures
            (r.0@, r.1@) == key_handled(self@, self@.encrypted->Some_0, a),
    {
        let ghost before = self@;
        let ghost e = before.encrypted->Some_0;
        let mut s = self;
        let mut a2 = a;
        if let Some(CurrentRequest::PublicKey { sent_pk_ok }) = a.current {
            a2.current = Some(CurrentRequest::PublicKey { sent_pk_ok: true });
        }
        let method = s.common.auth_method.take();
        let mut step: Step<'a, T> = Step::Done;
        if let Some(enc) = &mut s.common.encrypted {
            enc.state = EncryptedState::WaitingAuthRequest(a2);
            match method {
                Some(Method::PublicKey { key, pair }) => {
                    s.common.buffer.clear();
                    let mut data = CryptoVec::new();
                    let offset: usize = enc.client_make_to_sign(
                        s.common.auth_user.as_str(),
                        &key,
                        &mut data,
                    );
                    step = Step::Sign { pair, data, offset };
                },
                Some(Method::FuturePublicKey { key }) => {
                    s.common.buffer.clear();
                    let mut data = CryptoVec::new();
                    let offset: usize = enc.client_make_to_sign(
                        s.common.auth_user.as_str(),
                        &key,
                        &mut data,
                    );
                    step = Step::RequestSignature { key, data, offset };
                },
                _ => {},
            }
        }
        assert(s@ =~= key_handled(before, e, a).0);
        assert(step@ =~= key_handled(before, e, a).1);
        (s, step)
    }

    /// Reads a packet while the authentication is under way.
    fn read_auth_answer<'a>(self, a: AuthRequest, buf: &'a [u8]) -> (r: Result<
        (Session<T>, Step<'a, T>),
        Error,
    >)
        requires
            buf@.len() > 0,
            fits(self@),
            self@.encrypted matches Some(e) && e.state == EncryptedState::WaitingAuthRequest(a),
        ensures
            match r {
                Ok((s, step)) => auth_answered(self@, self@.encrypted->Some_0, a, buf@) == Ok::<
                    (SessionView<T>, StepView<T>),
                    Error,
                >((s@, step@)),
                Err(e) => auth_answered(self@, self@.encrypted->Some_0, a, buf@) == Err::<
                    (SessionView<T>, StepView<T>),
                    Error,
                >(e),
            },
    {
        let ghost before = self@;
        let ghost e = before.encrypted->Some_0;
        let mut s = self;
        let kind: u8 = buf[0];
        let mut r = reader(buf, 1);
        if kind == msg::USERAUTH_SUCCESS {
            if let Some(enc) = &mut s.common.encrypted {
                enc.state = EncryptedState::InitCompression;
            }
            assert(s@ =~= before.with(
                EncryptedView { state: EncryptedState::InitCompression, ..e },
            ));
            Ok((s, Step::AuthSuccess))
        } else if kind == msg::USERAUTH_BANNER {
            let banner = r.read_string()?;
            match text(banner) {
                Ok(banner) => Ok((s, Step::AuthBanner { banner })),
                Err(_) => Ok((s, Step::Done)),
            }
        } else if kind == msg::USERAUTH_FAILURE {
            let remaining_methods = r.read_string()?;
            let mut a2 = a;
            a2.methods = MethodSet::from_list(remaining_methods);
            if let Some(enc) = &mut s.common.encrypted {
                enc.state = EncryptedState::WaitingAuthRequest(a2);
            }
            s.common.auth_method = None;
            assert(s@ =~= SessionView { auth_method: None, ..before }.with(
                EncryptedView { state: EncryptedState::WaitingAuthRequest(a2), ..e },
            ));
            Ok((s, Step::AuthFailure))
        } else if kind == msg::USERAUTH_PK_OK {
            Ok(s.key_was_accepted(a))
        } else {
            Err(Error::Inconsistent)
        }
    }

    /// Reads a packet of the server.
    pub fn client_read_encrypted<'a>(self, buf: &'a [u8]) -> (r: Result<
        (Session<T>, Step<'a, T>),
        Error,
    >)
        requires
            acceptable(self@, buf@),
            fits(self@),
        ensures
            match r {
                Ok((s, step)) => read_encrypted(self@, buf@) == Ok::<
                    (SessionView<T>, StepView<T>),
                    Error,
                >((s@, step@)),
                Err(e) => read_encrypted(self@, buf@) == Err::<
                    (SessionView<T>, StepView<T>),
                    Error,
                >(e),
            },
    {
        let ghost before = self@;
        let mut s = self;
        if buf[0] == msg::KEXINIT {
            return Ok(s.rekey());
        }
        let state = match &mut s.common.encrypted {
            Some(enc) => {
                let ghost e = enc@;
                match enc.rekey.take() {
                    Some(Kex::KexDhDone { ignore_guessed, state }) => {
                        if ignore_guessed {
                            enc.rekey = Some(Kex::KexDhDone { ignore_guessed: false, state });
                            assert(enc@ =~= EncryptedView {
                                rekey: Some(Kex::KexDhDone { ignore_guessed: false, state }),
                                ..e
                            });
                            return Ok((s, Step::Done));
                        } else if buf[0] == msg::KEX_ECDH_REPLY {
                            assert(enc@ =~= EncryptedView { rekey: None, ..e });
                            return Ok((s, Step::CheckServerKey { dh_done: state }));
                        } else {
                            return Err(Error::Inconsistent);
                        }
                    },
                    Some(Kex::NewKeys { exchange, cipher }) => {
                        if buf[0] != msg::NEWKEYS {
                            return Err(Error::Kex);
                        }
                        enc.exchange = Some(exchange);
                        assert(enc@ =~= EncryptedView {
                            rekey: None,
                            exchange: Some(exchange),
                            ..e
                        });
                        s.common.write_buffer.bytes = 0;
                        s.common.cipher = cipher;
                        return Ok((s, Step::KeysInstalled));
                    },
                    rek => {
                        enc.rekey = rek;
                        assert(enc@ =~= e);
                    },
                }
                enc.state
            },
            None => {
                return Ok((s, Step::Done));
            },
        };
        assert(s@ =~= before);
        match state {
            EncryptedState::WaitingServiceRequest { sent, accepted } => s.read_service_answer(
                sent,
                accepted,
                buf,
            ),
            EncryptedState::WaitingAuthRequest(a) => s.read_auth_answer(a, buf),
            EncryptedState::InitCompression => {
                assert(false);
                Ok((s, Step::Done))
            },
            EncryptedState::Authenticated => s.client_read_authenticated(buf),
        }
    }
}

} // verus!
