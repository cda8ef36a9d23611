//! What holds of a client's session as a whole.
use crate::address::{ip_in, ip_named, lossy};
use crate::auth::{
    auth_request, key_request, request_head, to_sign, AuthRequest, Method, PublicKey,
};
use crate::buffer::{be32, buffer_max};
use crate::client::channel::{OpenChannelMsg, Polled};
use crate::client::encrypted::{
    acceptable, announced, announcement, auth_answered, auth_chosen, auth_fits,
    awaits_auth_request, fetches_user, fits, forward_fits, forwarded_asked, forwarded_channel_made,
    half_sent, handled, kex_idle, key_checked, key_handled, lemma_open_refusal_len,
    open_confirmation, open_refusal, read_authenticated, read_encrypted, rekey_requested,
    service_answered,
};
use crate::client::tunnel::has_receiver;
use crate::client::{SessionView, StepView};
use crate::encoding::{
    law_string_read_back, law_u32_read_back, packet, ssh_string, string_at, u32_at,
};
use crate::error::Error;
use crate::msg;
use crate::names::{failure_numbered, ChannelOpenFailure};
use crate::packet::{open_kind_at, parse, past, text_at, OpenKindView, PacketView};
use crate::session::{
    has_free_id, id_after, is_next_id, next_id, received, window_adjust, window_left, window_low,
    ChannelId, Config, EncryptedState, EncryptedView, IpAddr, Kex, SocketAddr, Transport,
};
use vstd::prelude::*;
use vstd::string::StringSliceAdditionalSpecFns;

verus! {

/// The integer that stands at a position is read back.
pub(crate) proof fn lemma_u32_at(b: Seq<u8>, i: int, n: u32)
    requires
        0 <= i <= i + 4 <= b.len(),
        b.subrange(i, i + 4) == be32(n),
    ensures
        u32_at(b, i) == Some(n),
{
    law_u32_read_back(n, b.take(i), b.skip(i + 4));
    assert(b =~= b.take(i) + be32(n) + b.skip(i + 4));
}

/// The string that stands at a position is read back.
pub(crate) proof fn lemma_string_at(b: Seq<u8>, i: int, s: Seq<u8>)
    requires
        s.len() <= u32::MAX,
        0 <= i <= i + 4 + s.len() <= b.len(),
        b.subrange(i, i + 4 + s.len()) == ssh_string(s),
    ensures
        string_at(b, i) == Some(s),
{
    law_string_read_back(s, b.take(i), b.skip(i + 4 + s.len()));
    assert(b =~= b.take(i) + ssh_string(s) + b.skip(i + 4 + s.len()));
}

/// A confirmation holds, in order, the number of the server, that of this side, the window and the
/// largest packet of the settings, and nothing more.
pub proof fn law_confirmation_fields(remote: u32, local: u32, config: Config)
    ensures
        ({
            let b = open_confirmation(remote, local, config);
            &&& b.len() == 17
            &&& b[0] == msg::CHANNEL_OPEN_CONFIRMATION
            &&& u32_at(b, 1) == Some(remote)
            &&& u32_at(b, 5) == Some(local)
            &&& u32_at(b, 9) == Some(config.window_size)
            &&& u32_at(b, 13) == Some(config.maximum_packet_size)
        }),
{
    let b = open_confirmation(remote, local, config);
    assert(u32_at(b, 1) == Some(remote)) by {
        assert(b.subrange(1, 5) =~= be32(remote));
        lemma_u32_at(b, 1, remote);
    }
    assert(u32_at(b, 5) == Some(local)) by {
        assert(b.subrange(5, 9) =~= be32(local));
        lemma_u32_at(b, 5, local);
    }
    assert(u32_at(b, 9) == Some(config.window_size)) by {
        assert(b.subrange(9, 13) =~= be32(config.window_size));
        lemma_u32_at(b, 9, config.window_size);
    }
    assert(u32_at(b, 13) == Some(config.maximum_packet_size)) by {
        assert(b.subrange(13, 17) =~= be32(config.maximum_packet_size));
        lemma_u32_at(b, 13, config.maximum_packet_size);
    }
}

/// A confirmed channel is read back as it was written: its numbers and the settings of the
/// session.
pub proof fn law_confirmation_read_back(remote: u32, local: u32, config: Config)
    ensures
        parse(open_confirmation(remote, local, config)) == Ok::<PacketView, Error>(
            PacketView::OpenConfirmation {
                id: remote,
                recipient_channel: local,
                window: config.window_size,
                max_packet: config.maximum_packet_size,
            },
        ),
{
    law_confirmation_fields(remote, local, config);
}

/// A window that was opened again is read back as it was written.
pub proof fn law_window_adjust_read_back(recipient_channel: u32, amount: u32)
    ensures
        parse(window_adjust(recipient_channel, amount)) == Ok::<PacketView, Error>(
            PacketView::WindowAdjust { id: recipient_channel, amount },
        ),
{
    let b = window_adjust(recipient_channel, amount);
    assert(u32_at(b, 1) == Some(recipient_channel)) by {
        assert(b.subrange(1, 5) =~= be32(recipient_channel));
        lemma_u32_at(b, 1, recipient_channel);
    }
    assert(u32_at(b, 5) == Some(amount)) by {
        assert(b.subrange(5, 9) =~= be32(amount));
        lemma_u32_at(b, 5, amount);
    }
}

/// The fields of a refusal.
proof fn lemma_refusal_fields(remote: u32)
    ensures
        ({
            let b = open_refusal(remote);
            &&& b[0] == msg::CHANNEL_OPEN_FAILURE
            &&& u32_at(b, 1) == Some(remote)
            &&& u32_at(b, 5) == Some(3u32)
            &&& string_at(b, 9) == Some("Unknown channel type".spec_bytes())
            &&& string_at(b, 33) == Some("en".spec_bytes())
            &&& "Unknown channel type".spec_bytes().len() == 20
        }),
{
    let b = open_refusal(remote);
    let text = "Unknown channel type".spec_bytes();
    let lang = "en".spec_bytes();
    assert(text.len() == 20 && lang.len() == 2) by {
        reveal_strlit("Unknown channel type");
        reveal_strlit("en");
        assert(vstd::string::is_ascii("Unknown channel type"));
        assert(vstd::string::is_ascii("en"));
    }
    assert(u32_at(b, 1) == Some(remote)) by {
        assert(b.subrange(1, 5) =~= be32(remote));
        lemma_u32_at(b, 1, remote);
    }
    assert(u32_at(b, 5) == Some(3u32)) by {
        assert(b.subrange(5, 9) =~= be32(3));
        lemma_u32_at(b, 5, 3);
    }
    assert(string_at(b, 9) == Some(text)) by {
        assert(b.subrange(9, 33) =~= ssh_string(text));
        lemma_string_at(b, 9, text);
    }
    assert(string_at(b, 33) == Some(lang)) by {
        assert(b.subrange(33, 39) =~= ssh_string(lang));
        lemma_string_at(b, 33, lang);
    }
}

/// A refused channel is read back as it was written: an unknown kind of channel, said in
/// English.
pub proof fn law_refusal_read_back(remote: u32)
    ensures
        parse(open_refusal(remote)) == Ok::<PacketView, Error>(
            PacketView::OpenFailure {
                id: remote,
                reason_code: 3,
                description: "Unknown channel type"@,
                language: "en"@,
            },
        ),
        failure_numbered(3) == Some(ChannelOpenFailure::UnknownChannelType),
{
    lemma_refusal_fields(remote);
    let b = open_refusal(remote);
    assert(text_at(b, 9) == Ok::<Seq<char>, Error>("Unknown channel type"@)) by {
        vstd::utf8::encode_utf8_valid_utf8("Unknown channel type"@);
        vstd::utf8::encode_utf8_decode_utf8("Unknown channel type"@);
    }
    assert(text_at(b, 33) == Ok::<Seq<char>, Error>("en"@)) by {
        vstd::utf8::encode_utf8_valid_utf8("en"@);
        vstd::utf8::encode_utf8_decode_utf8("en"@);
    }
    assert(past(b, 9) == 33);
}

/// Packets one after the other, each with its length in front.
pub open spec fn frames(packets: Seq<Seq<u8>>) -> Seq<u8>
    decreases packets.len(),
{
    if packets.len() == 0 {
        Seq::empty()
    } else {
        frames(packets.drop_last()) + packet(packets.last())
    }
}

/// The bytes are whole packets, each with its length in front.
pub open spec fn framed(w: Seq<u8>) -> bool {
    exists|packets: Seq<Seq<u8>>| #[trigger]
        frames(packets) == w && forall|i: int|
            0 <= i < packets.len() ==> (#[trigger] packets[i]).len() <= u32::MAX
}

/// One more packet keeps the packets whole.
proof fn lemma_framed_push(w: Seq<u8>, body: Seq<u8>)
    requires
        framed(w),
        body.len() <= u32::MAX,
    ensures
        framed(w + packet(body)),
{
    let packets = choose|packets: Seq<Seq<u8>>| #[trigger]
        frames(packets) == w && forall|i: int|
            0 <= i < packets.len() ==> (#[trigger] packets[i]).len() <= u32::MAX;
    let more = packets.push(body);
    assert(more.drop_last() =~= packets);
    assert(frames(more) == w + packet(body));
}

/// The first of several packets, and all of them, can be told apart again by their lengths.
pub proof fn law_frames_read_back(packets: Seq<Seq<u8>>)
    requires
        packets.len() > 0,
        forall|i: int| 0 <= i < packets.len() ==> (#[trigger] packets[i]).len() <= u32::MAX,
    ensures
        string_at(frames(packets), 0) == Some(packets[0]),
        frames(packets).skip(4 + packets[0].len() as int) == frames(packets.skip(1)),
    decreases packets.len(),
{
    let front = packets.drop_last();
    let last = packets.last();
    if front.len() == 0 {
        assert(frames(front) =~= Seq::<u8>::empty());
        law_string_read_back(last, Seq::empty(), Seq::empty());
        assert(frames(packets) =~= Seq::<u8>::empty() + ssh_string(last) + Seq::<u8>::empty());
        assert(frames(packets.skip(1)) =~= Seq::<u8>::empty());
        assert(frames(packets).skip(4 + last.len() as int) =~= Seq::<u8>::empty());
    } else {
        law_frames_read_back(front);
        let n = 4 + packets[0].len() as int;
        assert(front[0] == packets[0]);
        assert(frames(front).len() >= n);
        assert(u32_at(frames(packets), 0) == u32_at(frames(front), 0));
        assert(frames(packets).subrange(4, n) =~= frames(front).subrange(4, n));
        assert(packets.skip(1).drop_last() =~= front.skip(1));
        assert(frames(packets).skip(n) =~= frames(front).skip(n) + packet(last));
    }
}

/// Everything that a session has been given to write, and everything that it does not learn from
/// packets, stays as it is.
pub open spec fn keeps<T: Transport>(before: SessionView<T>, after: SessionView<T>) -> bool {
    &&& after.config == before.config
    &&& after.auth_user == before.auth_user
    &&& after.write_buffer == before.write_buffer
    &&& after.channels == before.channels
    &&& after.remote_forward_channels == before.remote_forward_channels
    &&& after.target_window_size == before.target_window_size
    &&& after.encrypted is Some == before.encrypted is Some
    &&& before.encrypted matches Some(e) ==> {
        let f = after.encrypted->Some_0;
        &&& f.session_id == e.session_id
        &&& f.last_channel_id == e.last_channel_id
        &&& e.write.is_prefix_of(f.write)
        &&& framed(e.write) ==> framed(f.write)
    }
}

/// What an authenticated session does about a packet keeps what was to be written.
proof fn lemma_handled_keeps<T: Transport>(s: SessionView<T>, p: PacketView)
    ensures
        handled(s, p) matches Ok((t, _)) ==> keeps(s, t),
{
    if let Some(e) = s.encrypted {
        match p {
            PacketView::Data { id, data } => {
                lemma_received_keeps(e, id, data.len() as u32, s.config.window_size);
            },
            PacketView::ExtendedData { id, code, data } => {
                lemma_received_keeps(e, id, data.len() as u32, s.config.window_size);
            },
            PacketView::Open { sender_channel, .. } => {
                lemma_open_refusal_len(sender_channel);
                if framed(e.write) {
                    lemma_framed_push(e.write, open_refusal(sender_channel));
                }
            },
            _ => {},
        }
    }
}

/// Incoming data keeps what was to be written.
proof fn lemma_received_keeps<T: Transport>(e: EncryptedView<T>, id: u32, n: u32, target: u32)
    ensures
        ({
            let f = received(e, id, n, target);
            &&& f.session_id == e.session_id
            &&& f.last_channel_id == e.last_channel_id
            &&& f.state == e.state
            &&& f.rekey == e.rekey
            &&& e.write.is_prefix_of(f.write)
            &&& framed(e.write) ==> framed(f.write)
        }),
{
    if window_low(e, id, n, target) && framed(e.write) {
        let p = e.channels[id];
        lemma_framed_push(
            e.write,
            window_adjust(
                p.recipient_channel,
                (target - window_left(p.sender_window_size, n)) as u32,
            ),
        );
    }
}

/// The answer to the request for the authentication service keeps what was to be written.
proof fn lemma_service_answer_keeps<T: Transport>(
    s: SessionView<T>,
    e: EncryptedView<T>,
    sent: bool,
    accepted: bool,
    b: Seq<u8>,
)
    requires
        s.encrypted == Some(e),
        s.auth_method matches Some(method) ==> auth_request(s.auth_user, method).len() <= u32::MAX,
    ensures
        service_answered(s, e, sent, accepted, b) matches Ok((t, _)) ==> keeps(s, t),
{
    if let Some(method) = s.auth_method {
        if framed(e.write) {
            lemma_framed_push(e.write, auth_request(s.auth_user, method));
        }
    }
}

/// The answers during an authentication keep what was to be written.
proof fn lemma_auth_answer_keeps<T: Transport>(
    s: SessionView<T>,
    e: EncryptedView<T>,
    a: AuthRequest,
    b: Seq<u8>,
)
    requires
        s.encrypted == Some(e),
    ensures
        auth_answered(s, e, a, b) matches Ok((t, _)) ==> keeps(s, t),
{
}

/// Reading a packet never takes back or reorders what was to be written: it only appends, and it
/// appends whole packets; and the settings, the identity of the session, the queues and the
/// forwarded addresses stay as they are.
pub proof fn law_reading_keeps<T: Transport>(s: SessionView<T>, b: Seq<u8>)
    requires
        acceptable(s, b),
        s.auth_method matches Some(method) ==> auth_request(s.auth_user, method).len() <= u32::MAX,
    ensures
        read_encrypted(s, b) matches Ok((t, _)) ==> keeps(s, t),
{
    if let Some(e) = s.encrypted {
        if b[0] == msg::KEXINIT {
            assert(read_encrypted(s, b) == Ok::<(SessionView<T>, StepView<T>), Error>(
                rekey_requested(s),
            ));
        } else if kex_idle(e) {
            match e.state {
                EncryptedState::Authenticated => {
                    assert(read_encrypted(s, b) == read_authenticated(s, b));
                    if let Ok(p) = parse(b) {
                        lemma_handled_keeps(s, p);
                    }
                },
                EncryptedState::WaitingServiceRequest { sent, accepted } => {
                    lemma_service_answer_keeps(s, e, sent, accepted, b);
                    assert(read_encrypted(s, b) == service_answered(s, e, sent, accepted, b));
                },
                EncryptedState::WaitingAuthRequest(a) => {
                    lemma_auth_answer_keeps(s, e, a, b);
                    assert(read_encrypted(s, b) == auth_answered(s, e, a, b));
                },
                EncryptedState::InitCompression => {},
            }
        }
    }
}

/// Only an authenticated session deals with channels: before, a packet changes no channel and
/// nothing is told of one. And no packet makes a session authenticated, nor undoes it.
pub proof fn law_channels_need_authentication<T: Transport>(s: SessionView<T>, b: Seq<u8>)
    requires
        acceptable(s, b),
        s.encrypted is Some,
    ensures
        read_encrypted(s, b) matches Ok((t, step)) ==> {
            let (e, f) = (s.encrypted->Some_0, t.encrypted->Some_0);
            &&& e.state == EncryptedState::Authenticated <==> f.state
                == EncryptedState::Authenticated
            &&& e.state != EncryptedState::Authenticated || !kex_idle(e) || b[0] == msg::KEXINIT
                ==> f.channels == e.channels && !(step is Call) && !(step is ForwardedTcpip)
        },
{
    let e = s.encrypted->Some_0;
    if b[0] != msg::KEXINIT && kex_idle(e) && e.state == EncryptedState::Authenticated {
        if let Ok(p) = parse(b) {
            match p {
                PacketView::Data { id, data } => {
                    lemma_received_keeps(e, id, data.len() as u32, s.config.window_size);
                },
                PacketView::ExtendedData { id, code, data } => {
                    lemma_received_keeps(e, id, data.len() as u32, s.config.window_size);
                },
                _ => {},
            }
        }
    }
}

/// A wrong guess of the server costs exactly the one packet that follows it.
pub proof fn law_wrong_guess_skipped<T: Transport>(
    s: SessionView<T>,
    e: EncryptedView<T>,
    state: T::DhDone,
    guess: Seq<u8>,
    reply: Seq<u8>,
)
    requires
        s.encrypted == Some(e),
        e.rekey == Some(Kex::<T>::KexDhDone { ignore_guessed: true, state }),
        guess[0] != msg::KEXINIT,
        reply[0] == msg::KEX_ECDH_REPLY,
    ensures
        read_encrypted(s, guess) matches Ok((t, step)) && {
            &&& step == StepView::<T>::Done
            &&& read_encrypted(t, reply) == Ok::<(SessionView<T>, StepView<T>), Error>(
                (
                    s.with(EncryptedView { rekey: None, ..e }),
                    StepView::CheckServerKey { dh_done: state },
                ),
            )
        },
{
    let f = EncryptedView {
        rekey: Some(Kex::<T>::KexDhDone { ignore_guessed: false, state }),
        ..e
    };
    assert(s.with(f).with(EncryptedView { rekey: None, ..f }) =~= s.with(
        EncryptedView { rekey: None, ..e },
    ));
}

/// The session after a whole key exchange that ends with these keys.
pub open spec fn rekeyed<T: Transport>(
    s: SessionView<T>,
    e: EncryptedView<T>,
    exchange: T::Exchange,
    cipher: T::Cipher,
) -> SessionView<T> {
    SessionView { bytes: 0, cipher, ..s }.with(
        EncryptedView { rekey: None, exchange: Some(exchange), ..e },
    ).sends_now(seq![msg::NEWKEYS])
}

/// From the moment when this side has sent its half, a key exchange takes the reply of the server
/// and its signal, each at its turn, and ends with the new keys in use and nothing else changed.
/// Any other packet at these points ends the session.
pub proof fn law_key_exchange_completes<T: Transport>(
    s: SessionView<T>,
    e: EncryptedView<T>,
    state: T::DhDone,
    exchange: T::Exchange,
    cipher: T::Cipher,
    reply: Seq<u8>,
    signal: Seq<u8>,
)
    requires
        s.encrypted == Some(e),
        reply[0] != msg::KEXINIT,
        signal[0] != msg::KEXINIT,
    ensures
        ({
            let sent = half_sent(s, false, state);
            let checked = s.with(EncryptedView { rekey: None, ..e });
            let waiting = key_checked(checked, Kex::NewKeys { exchange, cipher });
            &&& read_encrypted(sent, reply) == (if reply[0] == msg::KEX_ECDH_REPLY {
                Ok::<(SessionView<T>, StepView<T>), Error>(
                    (checked, StepView::CheckServerKey { dh_done: state }),
                )
            } else {
                Err::<(SessionView<T>, StepView<T>), Error>(Error::Inconsistent)
            })
            &&& read_encrypted(waiting, signal) == (if signal[0] == msg::NEWKEYS {
                Ok::<(SessionView<T>, StepView<T>), Error>(
                    (rekeyed(s, e, exchange, cipher), StepView::KeysInstalled),
                )
            } else {
                Err::<(SessionView<T>, StepView<T>), Error>(Error::Kex)
            })
        }),
{
    let sent = half_sent(s, false, state);
    let checked = s.with(EncryptedView { rekey: None, ..e });
    let waiting = key_checked(checked, Kex::NewKeys { exchange, cipher });
    assert(sent.with(EncryptedView { rekey: None, ..sent.encrypted->Some_0 }) =~= checked);
    assert(SessionView { bytes: 0, cipher, ..waiting }.with(
        EncryptedView { rekey: None, exchange: Some(exchange), ..waiting.encrypted->Some_0 },
    ) =~= rekeyed(s, e, exchange, cipher));
}

/// A key exchange that this side has started is carried through: the server's algorithms, its
/// reply and its signal lead to the new keys, and no key exchange is under way afterwards.
pub proof fn law_rekey_of_client<T: Transport>(
    s: SessionView<T>,
    e: EncryptedView<T>,
    init: T::Init,
    state: T::DhDone,
    exchange: T::Exchange,
    cipher: T::Cipher,
    algorithms: Seq<u8>,
    reply: Seq<u8>,
    signal: Seq<u8>,
)
    requires
        s.encrypted == Some(e),
        e.rekey == Some(Kex::<T>::KexInit(init)),
        algorithms[0] == msg::KEXINIT,
        reply[0] == msg::KEX_ECDH_REPLY,
        signal[0] == msg::NEWKEYS,
    ensures
        read_encrypted(s, algorithms) matches Ok((t1, step1)) && {
            &&& step1 == StepView::<T>::ParseKexInit { kexinit: init }
            &&& read_encrypted(half_sent(t1, false, state), reply) matches Ok((t2, step2)) && {
                &&& step2 == StepView::<T>::CheckServerKey { dh_done: state }
                &&& read_encrypted(
                    key_checked(t2, Kex::NewKeys { exchange, cipher }),
                    signal,
                ) == Ok::<(SessionView<T>, StepView<T>), Error>(
                    (rekeyed(s, e, exchange, cipher), StepView::KeysInstalled),
                )
            }
        },
        kex_idle(rekeyed(s, e, exchange, cipher).encrypted->Some_0),
        rekeyed(s, e, exchange, cipher).cipher == cipher,
{
    let e1 = EncryptedView { rekey: None, ..e };
    let t1 = s.with(e1);
    law_key_exchange_completes(t1, e1, state, exchange, cipher, reply, signal);
    assert(t1.with(EncryptedView { rekey: None, ..e1 }) =~= t1);
    assert(rekeyed(t1, e1, exchange, cipher) =~= rekeyed(s, e, exchange, cipher));
}

/// A key exchange that the server has started is carried through in the same way; one of its own
/// that has come further than the announcement is given up for it.
pub proof fn law_rekey_of_server<T: Transport>(
    s: SessionView<T>,
    e: EncryptedView<T>,
    known: T::Exchange,
    state: T::DhDone,
    exchange: T::Exchange,
    cipher: T::Cipher,
    algorithms: Seq<u8>,
    reply: Seq<u8>,
    signal: Seq<u8>,
)
    requires
        s.encrypted == Some(e),
        e.rekey matches Some(kex) ==> !(kex is KexInit),
        e.exchange == Some(known),
        algorithms[0] == msg::KEXINIT,
        reply[0] == msg::KEX_ECDH_REPLY,
        signal[0] == msg::NEWKEYS,
    ensures
        read_encrypted(s, algorithms) matches Ok((t1, step1)) && {
            &&& step1 == StepView::<T>::ReceiveRekey { exchange: known }
            &&& read_encrypted(half_sent(t1, false, state), reply) matches Ok((t2, step2)) && {
                &&& step2 == StepView::<T>::CheckServerKey { dh_done: state }
                &&& read_encrypted(
                    key_checked(t2, Kex::NewKeys { exchange, cipher }),
                    signal,
                ) == Ok::<(SessionView<T>, StepView<T>), Error>(
                    (rekeyed(s, e, exchange, cipher), StepView::KeysInstalled),
                )
            }
        },
        kex_idle(rekeyed(s, e, exchange, cipher).encrypted->Some_0),
        rekeyed(s, e, exchange, cipher).cipher == cipher,
{
    let e1 = EncryptedView { rekey: None, exchange: None, ..e };
    let t1 = s.with(e1);
    law_key_exchange_completes(t1, e1, state, exchange, cipher, reply, signal);
    assert(t1.with(EncryptedView { rekey: None, ..e1 }) =~= t1);
    assert(rekeyed(t1, e1, exchange, cipher) =~= rekeyed(s, e, exchange, cipher));
}

/// The authentication service is asked for once, however often the user chooses a method: another
/// choice asks for nothing, leaves the state of the session as it is, and is answered alike.
pub proof fn law_service_requested_once<T: Transport>(
    s: SessionView<T>,
    user: Seq<char>,
    method: Method<T>,
    again: Seq<char>,
    other: Method<T>,
)
    ensures
        auth_chosen(auth_chosen(s, user, method), again, other).write_buffer == auth_chosen(
            s,
            user,
            method,
        ).write_buffer,
        awaits_auth_request(auth_chosen(s, user, method)) == awaits_auth_request(s),
        s.encrypted is Some ==> auth_chosen(
            auth_chosen(s, user, method),
            again,
            other,
        ).encrypted->Some_0.state == auth_chosen(s, user, method).encrypted->Some_0.state,
        auth_chosen(auth_chosen(s, user, method), again, other).auth_user == again,
        auth_chosen(auth_chosen(s, user, method), again, other).auth_method == Some(other),
{
}

/// No password and no key is sent before the server has accepted the authentication service.
pub proof fn law_request_waits_for_service<T: Transport>(
    s: SessionView<T>,
    e: EncryptedView<T>,
    user: Seq<char>,
    method: Method<T>,
    sent: bool,
)
    requires
        s.encrypted == Some(e),
        e.state == (EncryptedState::WaitingServiceRequest { sent, accepted: false }),
    ensures
        ({
            let t = auth_chosen(s, user, method);
            &&& t.encrypted->Some_0.write == e.write
            &&& t.auth_user == user
            &&& t.auth_method == Some(method)
            &&& !awaits_auth_request(t)
        }),
{
}

/// A method that was chosen before the service was accepted is asked for as soon as it is.
pub proof fn law_request_sent_on_acceptance<T: Transport>(
    s: SessionView<T>,
    e: EncryptedView<T>,
    user: Seq<char>,
    method: Method<T>,
    sent: bool,
    b: Seq<u8>,
)
    requires
        s.encrypted == Some(e),
        e.state == (EncryptedState::WaitingServiceRequest { sent, accepted: false }),
        kex_idle(e),
        b[0] == msg::SERVICE_ACCEPT,
        string_at(b, 1) == Some("ssh-userauth".spec_bytes()),
    ensures
        read_encrypted(auth_chosen(s, user, method), b) matches Ok((t, step)) && {
            &&& step == StepView::<T>::Done
            &&& t.encrypted->Some_0.write == e.write + packet(auth_request(user, method))
            &&& t.encrypted->Some_0.state is WaitingAuthRequest
        },
{
}

/// A method serves for one answer of the server: after a key was accepted or a request refused
/// it is gone, and another acceptance has nothing signed.
pub proof fn law_method_used_once<T: Transport>(
    s: SessionView<T>,
    e: EncryptedView<T>,
    a: AuthRequest,
    first: Seq<u8>,
    second: Seq<u8>,
)
    requires
        s.encrypted == Some(e),
        kex_idle(e),
        e.state == EncryptedState::WaitingAuthRequest(a),
        first[0] == msg::USERAUTH_PK_OK || first[0] == msg::USERAUTH_FAILURE,
        second[0] == msg::USERAUTH_PK_OK,
    ensures
        read_encrypted(s, first) matches Ok((t, _)) ==> {
            &&& t.auth_method is None
            &&& read_encrypted(t, second) matches Ok((u, step)) && step == StepView::<T>::Done
                && u.encrypted->Some_0.write == e.write
        },
{
}

/// What is signed is the identity of the session and the very request that is sent: with a
/// signature appended, the packet is the request and the signature.
pub proof fn law_signed_request_sent<T: Transport>(
    s: SessionView<T>,
    e: EncryptedView<T>,
    a: AuthRequest,
    key: PublicKey,
    pair: T::KeyPair,
    signature: Seq<u8>,
)
    requires
        s.encrypted == Some(e),
        s.auth_method == Some(Method::<T>::PublicKey { key, pair }),
    ensures
        key_handled(s, e, a).1 matches StepView::Sign { pair: p, data, offset } && {
            &&& p == pair
            &&& data == ssh_string(e.session_id) + data.skip(offset)
            &&& (data + signature).skip(offset) == key_request(s.auth_user, key, true) + signature
        },
{
    let data = to_sign(e.session_id, s.auth_user, key);
    let offset = ssh_string(e.session_id).len() as int;
    assert(data.skip(offset) =~= key_request(s.auth_user, key, true));
    assert((data + signature).skip(offset) =~= key_request(s.auth_user, key, true) + signature);
}

/// The question whether a key would do and the request that is signed differ in one byte: the
/// flag behind the head of the request, 36 bytes and the name of the user into it, is unset in the
/// question and set in the request.
pub proof fn law_probe_is_request(user: Seq<char>, key: PublicKey)
    ensures
        ({
            let i = request_head(user, "publickey".spec_bytes()).len() as int;
            &&& i == 36 + vstd::utf8::encode_utf8(user).len()
            &&& i < key_request(user, key, false).len()
            &&& key_request(user, key, false)[i] == 0
            &&& key_request(user, key, true) == key_request(user, key, false).update(i, 1u8)
        }),
{
    let i = request_head(user, "publickey".spec_bytes()).len() as int;
    assert(i == 36 + vstd::utf8::encode_utf8(user).len()) by {
        reveal_strlit("ssh-connection");
        reveal_strlit("publickey");
        assert(vstd::string::is_ascii("ssh-connection"));
        assert(vstd::string::is_ascii("publickey"));
    }
    assert(key_request(user, key, true) =~= key_request(user, key, false).update(i, 1u8));
}

/// The question whether a key would do does not tell whether the key pair signs here or its owner
/// signs on demand.
pub proof fn law_probe_hides_owner<T: Transport>(
    user: Seq<char>,
    key: PublicKey,
    pair: T::KeyPair,
    same: PublicKey,
)
    requires
        key.name@ == same.name@,
        key.blob@ == same.blob@,
    ensures
        auth_request(user, Method::<T>::PublicKey { key, pair }) == auth_request(
            user,
            Method::<T>::FuturePublicKey { key: same },
        ),
{
}

/// When a user chooses a name and a method, exactly the one request is appended if the server
/// waits for it, and nothing otherwise; the channels stay as they are, and the authentication is
/// in the same phase.
pub proof fn law_choice_appends_request<T: Transport>(
    s: SessionView<T>,
    e: EncryptedView<T>,
    user: Seq<char>,
    method: Method<T>,
)
    requires
        s.encrypted == Some(e),
    ensures
        ({
            let t = auth_chosen(s, user, method);
            let f = t.encrypted->Some_0;
            &&& t.encrypted is Some
            &&& f.write == (if awaits_auth_request(s) {
                e.write + packet(auth_request(user, method))
            } else {
                e.write
            })
            &&& f.channels == e.channels
            &&& t.channels == s.channels
            &&& match e.state {
                EncryptedState::WaitingServiceRequest { sent, accepted } => f.state == (
                EncryptedState::WaitingServiceRequest { sent: true, accepted }),
                _ => f.state == e.state,
            }
        }),
{
}

/// While a number is free, the next number for a channel is free, and within one round of the
/// numbers no free one is passed over.
proof fn lemma_next_id_exists(used: Set<u32>, last: u32)
    requires
        has_free_id(used),
    ensures
        is_next_id(used, last, next_id(used, last)),
{
    let free = choose|id: u32| !used.contains(id);
    let m: int = if free > last {
        free - last
    } else {
        free - last + 0x1_0000_0000
    };
    assert(id_after(last, m) == free);
    lemma_first_free(used, last, 1, m);
}

/// From a point where all numbers before are used, up to a free number, there is a first one.
proof fn lemma_first_free(used: Set<u32>, last: u32, k: int, m: int)
    requires
        1 <= k <= m,
        !used.contains(id_after(last, m)),
        forall|j: int| 1 <= j < k ==> used.contains(#[trigger] id_after(last, j)),
    ensures
        exists|id: u32| is_next_id(used, last, id),
    decreases m - k,
{
    if used.contains(id_after(last, k)) {
        lemma_first_free(used, last, k + 1, m);
    } else {
        assert(is_next_id(used, last, id_after(last, k)));
    }
}

/// How many steps lead from one channel number to another, counting up in a circle and at least
/// one.
pub open spec fn steps_to(last: u32, id: u32) -> int {
    if id > last {
        id - last
    } else {
        id - last + 0x1_0000_0000
    }
}

/// The next number for a channel is free, and it is the first such number: no other free number
/// can be reached in fewer steps from the last one.
pub proof fn law_next_number_is_first(used: Set<u32>, last: u32, other: u32)
    requires
        !used.contains(other),
    ensures
        !used.contains(next_id(used, last)),
        steps_to(last, next_id(used, last)) <= steps_to(last, other),
{
    lemma_next_id_exists(used, last);
    let id = next_id(used, last);
    let k = choose|k: int|
        1 <= k && id == #[trigger] id_after(last, k) && !used.contains(id) && forall|j: int|
            1 <= j < k ==> used.contains(#[trigger] id_after(last, j));
    let d = steps_to(last, other);
    assert(id_after(last, d) == other);
    assert(k <= d);
    assert(steps_to(last, id) == k);
}

/// A channel for a forwarded connection takes a number that no channel had, leaves the other
/// channels as they are, and is known to the session under that number.
pub proof fn law_forwarded_channel<T: Transport>(
    s: SessionView<T>,
    e: EncryptedView<T>,
    remote: u32,
    queue: T::Sender,
    window: u32,
    max_packet: u32,
)
    requires
        s.encrypted == Some(e),
        has_free_id(e.channels.dom()),
    ensures
        ({
            let t = forwarded_channel_made(s, remote, queue, window, max_packet);
            let f = t.encrypted->Some_0;
            let id = f.last_channel_id;
            &&& !e.channels.contains_key(id)
            &&& f.channels.contains_key(id)
            &&& f.channels[id].recipient_channel == remote
            &&& f.channels[id].sender_channel.0 == id
            &&& f.channels[id].recipient_window_size == window
            &&& f.channels[id].sender_window_size == s.config.window_size
            &&& f.channels[id].recipient_maximum_packet_size == max_packet
            &&& f.channels[id].sender_maximum_packet_size == s.config.maximum_packet_size
            &&& f.channels[id].confirmed
            &&& !f.channels[id].wants_reply
            &&& f.channels[id].pending_data.len() == 0
            &&& t.channels.contains_key(id) && t.channels[id] == queue
            &&& f.channels.remove(id) == e.channels
            &&& t.channels.remove(id) == s.channels.remove(id)
            &&& f.write == e.write + packet(open_confirmation(remote, id, s.config))
            &&& t == (SessionView { channels: t.channels, encrypted: Some(f), ..s })
            &&& f == (EncryptedView {
                last_channel_id: id,
                channels: f.channels,
                write: f.write,
                ..e
            })
        }),
{
    lemma_next_id_exists(e.channels.dom(), e.last_channel_id);
    let t = forwarded_channel_made(s, remote, queue, window, max_packet);
    let f = t.encrypted->Some_0;
    let id = f.last_channel_id;
    assert(f.channels.remove(id) =~= e.channels);
    assert(t.channels.remove(id) =~= s.channels.remove(id));
}

/// A packet is one that a session can read unless it is empty, announces algorithms without
/// encryption, comes between the end of the authentication and the start of the compression, or,
/// once the session is authenticated, refuses a channel for an unknown reason or opens a window
/// beyond 32 bits.
pub proof fn law_packets_accepted<T: Transport>(s: SessionView<T>, e: EncryptedView<T>, b: Seq<u8>)
    requires
        s.encrypted == Some(e),
        b.len() > 0,
    ensures
        b[0] == msg::KEXINIT ==> acceptable(s, b),
        (e.rekey matches Some(kex) && !(kex is KexInit)) ==> acceptable(s, b),
        e.state is WaitingServiceRequest || e.state is WaitingAuthRequest ==> acceptable(s, b),
        e.state is Authenticated && b[0] != msg::CHANNEL_OPEN_FAILURE && b[0]
            != msg::CHANNEL_WINDOW_ADJUST ==> acceptable(s, b),
        e.state is Authenticated && b[0] == msg::CHANNEL_OPEN_FAILURE && (u32_at(b, 5) is None
            || 1 <= u32_at(b, 5)->Some_0 <= 4) ==> acceptable(s, b),
        e.state is Authenticated && b[0] == msg::CHANNEL_WINDOW_ADJUST && (u32_at(b, 1) is None
            || u32_at(b, 5) is None || !e.channels.contains_key(u32_at(b, 1)->Some_0)
            || e.channels[u32_at(b, 1)->Some_0].recipient_window_size + u32_at(b, 5)->Some_0
            <= u32::MAX) ==> acceptable(s, b),
{
}

/// A session without encryption can read every packet but an empty one and the announcement of
/// algorithms.
pub proof fn law_unencrypted_accepted<T: Transport>(s: SessionView<T>, b: Seq<u8>)
    requires
        s.encrypted is None,
    ensures
        acceptable(s, b) <==> b.len() > 0 && b[0] != msg::KEXINIT,
{
}

/// The user is fetched exactly for the requests about a channel of an authenticated session that
/// hold a number and a name.
pub proof fn law_user_fetched<T: Transport>(s: SessionView<T>, e: EncryptedView<T>, b: Seq<u8>)
    requires
        s.encrypted == Some(e),
        b.len() > 0,
    ensures
        fetches_user(s, b) <==> {
            &&& e.state is Authenticated
            &&& e.rekey is None || e.rekey->Some_0 is KexInit
            &&& b[0] == msg::CHANNEL_REQUEST
            &&& b.len() >= 5
            &&& string_at(b, 5) is Some
        },
{
}

/// Room is counted up to the longest buffer, and matters only to an encrypted session.
pub proof fn law_room_counted<T: Transport>(s: SessionView<T>, n: nat)
    ensures
        s.encrypted is None ==> s.room(n),
        s.encrypted matches Some(e) ==> (s.room(n) <==> e.write.len() + n <= buffer_max()),
{
}

/// What a session writes fits while its buffers have room for it: a packet of 39 bytes with its
/// length, and the request and the data to sign of a method that the user has chosen.
pub proof fn law_room_suffices<T: Transport>(
    s: SessionView<T>,
    e: EncryptedView<T>,
    ip: IpAddr,
    port: u32,
    user: Seq<char>,
    method: Method<T>,
)
    requires
        s.encrypted == Some(e),
        e.write.len() + 43 <= buffer_max(),
        s.write_buffer.len() + 21 <= buffer_max(),
        s.auth_method matches Some(chosen) ==> e.write.len() + 4 + auth_request(
            s.auth_user,
            chosen,
        ).len() <= buffer_max() && e.session_id.len() + 4 + auth_request(s.auth_user, chosen).len()
            <= buffer_max(),
        e.write.len() + 4 + auth_request(user, method).len() <= buffer_max(),
        has_free_id(e.channels.dom()),
    ensures
        fits(s),
        forward_fits(s, ip, port),
        auth_fits(s, user, method),
{
}

/// The announcement of a forwarded connection is one that its listener can take: it comes with
/// the number, the window, the packet size and the queue of the new channel.
pub proof fn law_announcement_accepted<R>(id: u32, window: u32, max_packet: u32, receiver: R)
    ensures
        has_receiver(Polled::Ready(Some(announcement(id, window, max_packet, receiver)))),
        announcement(id, window, max_packet, receiver) == (OpenChannelMsg::Open {
            id: ChannelId(id),
            max_packet_size: max_packet,
            window_size: window,
            receiver: Some(receiver),
        }),
{
}

/// After data has come in on a channel, its window is at least half of the target, and what was
/// granted anew together with what was left is the target.
pub proof fn law_window_kept_open<T: Transport>(
    e: EncryptedView<T>,
    id: u32,
    n: u32,
    target: u32,
)
    requires
        e.channels.contains_key(id),
    ensures
        ({
            let f = received(e, id, n, target);
            let left = window_left(e.channels[id].sender_window_size, n);
            &&& f.channels.contains_key(id)
            &&& f.channels[id].sender_window_size >= target / 2
            &&& f.channels.remove(id) == e.channels.remove(id)
            &&& !window_low(e, id, n, target) ==> f.write == e.write
                && f.channels[id].sender_window_size == left
            &&& window_low(e, id, n, target) ==> exists|amount: u32|
                f.write == e.write + packet(
                    #[trigger] window_adjust(e.channels[id].recipient_channel, amount),
                ) && left + amount == target
        }),
{
    let f = received(e, id, n, target);
    assert(f.channels.remove(id) =~= e.channels.remove(id));
    let p = e.channels[id];
    let left = window_left(p.sender_window_size, n);
    if window_low(e, id, n, target) {
        let amount = (target - left) as u32;
        assert(f.write == e.write + packet(window_adjust(p.recipient_channel, amount)));
    }
}

/// A closed channel is gone, the others are not, and closing it again changes nothing.
pub proof fn law_closed_channel_gone<T: Transport>(s: SessionView<T>, e: EncryptedView<T>, id: u32)
    requires
        s.encrypted == Some(e),
    ensures
        !s.without(id).encrypted->Some_0.channels.contains_key(id),
        forall|other: u32|
            other != id && #[trigger] e.channels.contains_key(other) ==> s.without(
                id,
            ).encrypted->Some_0.channels.contains_key(other) && s.without(
                id,
            ).encrypted->Some_0.channels[other] == e.channels[other],
        s.without(id).without(id) == s.without(id),
{
    assert(s.without(id).without(id) =~= s.without(id));
}

/// The packet with which a server passes on a connection to a forwarded port.
#[verifier::opaque]
pub open spec fn forwarded_open(
    remote: u32,
    window: u32,
    max_packet: u32,
    address: Seq<u8>,
    port: u32,
    originator_address: Seq<u8>,
    originator_port: u32,
) -> Seq<u8> {
    seq![msg::CHANNEL_OPEN] + ssh_string("forwarded-tcpip".spec_bytes()) + be32(remote) + be32(
        window,
    ) + be32(max_packet) + ssh_string(address) + be32(port) + ssh_string(originator_address)
        + be32(originator_port)
}

/// The fields of that packet up to the address.
proof fn lemma_forwarded_open_front(
    remote: u32,
    window: u32,
    max_packet: u32,
    address: Seq<u8>,
    port: u32,
    originator_address: Seq<u8>,
    originator_port: u32,
)
    requires
        address.len() <= u32::MAX,
        originator_address.len() <= u32::MAX,
    ensures
        ({
            let b = forwarded_open(
                remote,
                window,
                max_packet,
                address,
                port,
                originator_address,
                originator_port,
            );
            &&& b.len() == 48 + address.len() + originator_address.len()
            &&& b[0] == msg::CHANNEL_OPEN
            &&& string_at(b, 1) == Some("forwarded-tcpip".spec_bytes())
            &&& "forwarded-tcpip".spec_bytes().len() == 15
            &&& u32_at(b, 20) == Some(remote)
            &&& u32_at(b, 24) == Some(window)
            &&& u32_at(b, 28) == Some(max_packet)
        }),
{
    reveal(forwarded_open);
    let name = "forwarded-tcpip".spec_bytes();
    let b = forwarded_open(
        remote,
        window,
        max_packet,
        address,
        port,
        originator_address,
        originator_port,
    );
    assert(name.len() == 15) by {
        reveal_strlit("forwarded-tcpip");
        assert(vstd::string::is_ascii("forwarded-tcpip"));
    }
    assert(string_at(b, 1) == Some(name)) by {
        assert(b.subrange(1, 20) =~= ssh_string(name));
        lemma_string_at(b, 1, name);
    }
    assert(u32_at(b, 20) == Some(remote)) by {
        assert(b.subrange(20, 24) =~= be32(remote));
        lemma_u32_at(b, 20, remote);
    }
    assert(u32_at(b, 24) == Some(window)) by {
        assert(b.subrange(24, 28) =~= be32(window));
        lemma_u32_at(b, 24, window);
    }
    assert(u32_at(b, 28) == Some(max_packet)) by {
        assert(b.subrange(28, 32) =~= be32(max_packet));
        lemma_u32_at(b, 28, max_packet);
    }
}

/// The fields of that packet from the address on.
proof fn lemma_forwarded_open_back(
    remote: u32,
    window: u32,
    max_packet: u32,
    address: Seq<u8>,
    port: u32,
    originator_address: Seq<u8>,
    originator_port: u32,
)
    requires
        address.len() <= u32::MAX,
        originator_address.len() <= u32::MAX,
    ensures
        ({
            let b = forwarded_open(
                remote,
                window,
                max_packet,
                address,
                port,
                originator_address,
                originator_port,
            );
            let j = 36 + address.len() as int;
            let k = j + 8 + originator_address.len() as int;
            &&& string_at(b, 32) == Some(address)
            &&& u32_at(b, j) == Some(port)
            &&& string_at(b, j + 4) == Some(originator_address)
            &&& u32_at(b, k) == Some(originator_port)
        }),
{
    reveal(forwarded_open);
    let b = forwarded_open(
        remote,
        window,
        max_packet,
        address,
        port,
        originator_address,
        originator_port,
    );
    let j = 36 + address.len() as int;
    let k = j + 8 + originator_address.len() as int;
    lemma_forwarded_open_front(
        remote,
        window,
        max_packet,
        address,
        port,
        originator_address,
        originator_port,
    );
    assert(string_at(b, 32) == Some(address)) by {
        assert(b.subrange(32, j) =~= ssh_string(address));
        lemma_string_at(b, 32, address);
    }
    assert(u32_at(b, j) == Some(port)) by {
        assert(b.subrange(j, j + 4) =~= be32(port));
        lemma_u32_at(b, j, port);
    }
    assert(string_at(b, j + 4) == Some(originator_address)) by {
        assert(b.subrange(j + 4, k) =~= ssh_string(originator_address));
        lemma_string_at(b, j + 4, originator_address);
    }
    assert(u32_at(b, k) == Some(originator_port)) by {
        assert(b.subrange(k, k + 4) =~= be32(originator_port));
        lemma_u32_at(b, k, originator_port);
    }
}

/// A packet with these fields opens a channel for a forwarded connection.
proof fn lemma_fields_parsed(
    b: Seq<u8>,
    remote: u32,
    window: u32,
    max_packet: u32,
    address: Seq<u8>,
    port: u32,
    originator_address: Seq<u8>,
    originator_port: u32,
)
    requires
        b[0] == msg::CHANNEL_OPEN,
        string_at(b, 1) == Some("forwarded-tcpip".spec_bytes()),
        "forwarded-tcpip".spec_bytes().len() == 15,
        u32_at(b, 20) == Some(remote),
        u32_at(b, 24) == Some(window),
        u32_at(b, 28) == Some(max_packet),
        string_at(b, 32) == Some(address),
        u32_at(b, 36 + address.len() as int) == Some(port),
        string_at(b, 40 + address.len() as int) == Some(originator_address),
        u32_at(b, 44 + address.len() as int + originator_address.len()) == Some(originator_port),
    ensures
        parse(b) == Ok::<PacketView, Error>(
            PacketView::Open {
                sender_channel: remote,
                window,
                max_packet,
                kind: OpenKindView::ForwardedTcpip {
                    address,
                    port,
                    originator_address,
                    originator_port,
                },
            },
        ),
{
    assert(open_kind_at(b, 32, "forwarded-tcpip".spec_bytes()) == Ok::<OpenKindView, Error>(
        OpenKindView::ForwardedTcpip { address, port, originator_address, originator_port },
    ));
}

/// What an authenticated session makes of a packet that opens a channel for a forwarded
/// connection.
proof fn lemma_forwarded_read<T: Transport>(
    s: SessionView<T>,
    e: EncryptedView<T>,
    b: Seq<u8>,
    remote: u32,
    window: u32,
    max_packet: u32,
    address: Seq<u8>,
    port: u32,
    originator_address: Seq<u8>,
    originator_port: u32,
)
    requires
        s.encrypted == Some(e),
        kex_idle(e),
        e.state == EncryptedState::Authenticated,
        b[0] == msg::CHANNEL_OPEN,
        parse(b) == Ok::<PacketView, Error>(
            PacketView::Open {
                sender_channel: remote,
                window,
                max_packet,
                kind: OpenKindView::ForwardedTcpip {
                    address,
                    port,
                    originator_address,
                    originator_port,
                },
            },
        ),
    ensures
        read_encrypted(s, b) == Ok::<(SessionView<T>, StepView<T>), Error>(
            (s, forwarded_asked(ip_in(address), port, remote, window, max_packet)),
        ),
{
    assert(read_encrypted(s, b) == read_authenticated(s, b));
}

/// That packet is read back as it was written.
proof fn lemma_forwarded_open_parsed(
    remote: u32,
    window: u32,
    max_packet: u32,
    address: Seq<u8>,
    port: u32,
    originator_address: Seq<u8>,
    originator_port: u32,
)
    requires
        address.len() <= u32::MAX,
        originator_address.len() <= u32::MAX,
    ensures
        parse(forwarded_open(
            remote,
            window,
            max_packet,
            address,
            port,
            originator_address,
            originator_port,
        )) == Ok::<PacketView, Error>(
            PacketView::Open {
                sender_channel: remote,
                window,
                max_packet,
                kind: OpenKindView::ForwardedTcpip {
                    address,
                    port,
                    originator_address,
                    originator_port,
                },
            },
        ),
{
    let b = forwarded_open(
        remote,
        window,
        max_packet,
        address,
        port,
        originator_address,
        originator_port,
    );
    lemma_forwarded_open_front(
        remote,
        window,
        max_packet,
        address,
        port,
        originator_address,
        originator_port,
    );
    lemma_forwarded_open_back(
        remote,
        window,
        max_packet,
        address,
        port,
        originator_address,
        originator_port,
    );
    lemma_fields_parsed(
        b,
        remote,
        window,
        max_packet,
        address,
        port,
        originator_address,
        originator_port,
    );
}

/// A connection to an address and a port is announced to the channel that listens there, and to no
/// other: the packet leads to the opening of a channel for exactly that address and port, the
/// announcement goes to the listener that the table of the session names for them, and the server
/// is told of the new channel under its own number. Where the connection came from plays no part.
/// A packet whose address is none is ignored.
pub proof fn law_connection_reaches_listener<T: Transport>(
    s: SessionView<T>,
    e: EncryptedView<T>,
    remote: u32,
    window: u32,
    max_packet: u32,
    address: Seq<u8>,
    port: u32,
    originator_address: Seq<u8>,
    originator_port: u32,
    queue: T::Sender,
    receiver: T::Receiver,
)
    requires
        s.encrypted == Some(e),
        kex_idle(e),
        e.state == EncryptedState::Authenticated,
        address.len() <= u32::MAX,
        originator_address.len() <= u32::MAX,
    ensures
        ({
            let read = read_encrypted(
                s,
                forwarded_open(
                    remote,
                    window,
                    max_packet,
                    address,
                    port,
                    originator_address,
                    originator_port,
                ),
            );
            match ip_named(lossy(address)) {
                None => read == Ok::<(SessionView<T>, StepView<T>), Error>((s, StepView::Done)),
                Some(ip) => {
                    let place = SocketAddr { ip, port: port as u16 };
                    let id = next_id(e.channels.dom(), e.last_channel_id);
                    let made = forwarded_channel_made(s, remote, queue, window, max_packet);
                    &&& read == Ok::<(SessionView<T>, StepView<T>), Error>(
                        (
                            s,
                            StepView::ForwardedTcpip {
                                ip,
                                port,
                                sender_channel: remote,
                                window,
                                max_packet,
                            },
                        ),
                    )
                    &&& announced(s, ip, port, window, max_packet, receiver) == (
                    if s.remote_forward_channels.contains_key(place) && s.channels.contains_key(
                        s.remote_forward_channels[place].0,
                    ) {
                        Some(
                            (
                                s.remote_forward_channels[place].0,
                                announcement(id, window, max_packet, receiver),
                            ),
                        )
                    } else {
                        None
                    })
                    &&& made.encrypted->Some_0.write == e.write + packet(
                        open_confirmation(remote, id, s.config),
                    )
                },
            }
        }),
{
    lemma_forwarded_open_parsed(
        remote,
        window,
        max_packet,
        address,
        port,
        originator_address,
        originator_port,
    );
    let b = forwarded_open(
        remote,
        window,
        max_packet,
        address,
        port,
        originator_address,
        originator_port,
    );
    lemma_forwarded_open_front(
        remote,
        window,
        max_packet,
        address,
        port,
        originator_address,
        originator_port,
    );
    lemma_forwarded_read(
        s,
        e,
        b,
        remote,
        window,
        max_packet,
        address,
        port,
        originator_address,
        originator_port,
    );
}

} // verus!
