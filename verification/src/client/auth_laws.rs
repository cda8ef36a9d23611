//! What a session does about key exchanges and about the authentication of its user, said of the
//! bytes of each packet.
use crate::auth::{
    auth_request, key_request, password_request, to_sign, AuthRequest, CurrentRequest, Method,
    MethodSet, PublicKey,
};
use crate::buffer::be32;
use crate::client::encrypted::{
    auth_answered, auth_chosen, awaits_auth_request, half_sent, key_checked, key_handled,
    read_encrypted, service_answered,
};
use crate::client::laws::lemma_string_at;
use crate::client::packet_laws::{becomes, goes_on, short};
use crate::client::{SessionView, StepView};
use crate::encoding::{packet, ssh_string, string_at};
use crate::error::Error;
use crate::msg;
use crate::session::{EncryptedState, EncryptedView, Kex, Transport};
use vstd::prelude::*;
use vstd::string::StringSliceAdditionalSpecFns;
use vstd::utf8::{decode_utf8, encode_utf8, valid_utf8};

verus! {

/// When the server announces its algorithms, an exchange that this side has announced goes on with
/// what this side has announced; otherwise the exchange is the server's, and goes on with what is
/// known of both sides, if that is not in use. Whatever was under way is taken, and nothing else
/// changes.
pub proof fn law_algorithms_announced<T: Transport>(
    s: SessionView<T>,
    e: EncryptedView<T>,
    b: Seq<u8>,
)
    requires
        s.encrypted == Some(e),
        b[0] == msg::KEXINIT,
    ensures
        read_encrypted(s, b) matches Ok((t, step)) && {
            let f = t.encrypted->Some_0;
            &&& t == becomes(s, f)
            &&& f == (EncryptedView { rekey: None, exchange: f.exchange, ..e })
            &&& match (e.rekey, e.exchange) {
                (Some(Kex::KexInit(init)), _) => step == (StepView::<T>::ParseKexInit {
                    kexinit: init,
                }) && f.exchange == e.exchange,
                (_, Some(known)) => step == (StepView::<T>::ReceiveRekey { exchange: known })
                    && f.exchange is None,
                (_, None) => step == StepView::<T>::Done && f.exchange is None,
            }
        },
{
}

/// While this side waits for the reply of the server, a wrong guess is skipped, the reply has the
/// server's key checked, and anything else ends the session. Nothing else changes.
pub proof fn law_reply_awaited<T: Transport>(
    s: SessionView<T>,
    e: EncryptedView<T>,
    b: Seq<u8>,
    ignore_guessed: bool,
    state: T::DhDone,
)
    requires
        s.encrypted == Some(e),
        e.rekey == Some(Kex::<T>::KexDhDone { ignore_guessed, state }),
        b[0] != msg::KEXINIT,
    ensures
        ignore_guessed ==> read_encrypted(s, b) == goes_on(
            becomes(
                s,
                EncryptedView {
                    rekey: Some(Kex::KexDhDone { ignore_guessed: false, state }),
                    ..e
                },
            ),
        ),
        !ignore_guessed && b[0] == msg::KEX_ECDH_REPLY ==> read_encrypted(s, b) == Ok::<
            (SessionView<T>, StepView<T>),
            Error,
        >(
            (
                becomes(s, EncryptedView { rekey: None, ..e }),
                StepView::CheckServerKey { dh_done: state },
            ),
        ),
        !ignore_guessed && b[0] != msg::KEX_ECDH_REPLY ==> read_encrypted(s, b) == Err::<
            (SessionView<T>, StepView<T>),
            Error,
        >(Error::Inconsistent),
{
}

/// While new keys wait for the signal of the server, the signal puts them in use, and anything
/// else ends the session. The count of bytes starts anew, and nothing else changes.
pub proof fn law_signal_awaited<T: Transport>(
    s: SessionView<T>,
    e: EncryptedView<T>,
    b: Seq<u8>,
    exchange: T::Exchange,
    cipher: T::Cipher,
)
    requires
        s.encrypted == Some(e),
        e.rekey == Some(Kex::<T>::NewKeys { exchange, cipher }),
        b[0] != msg::KEXINIT,
    ensures
        b[0] == msg::NEWKEYS ==> read_encrypted(s, b) == Ok::<(SessionView<T>, StepView<T>), Error>(
            (
                SessionView {
                    encrypted: Some(
                        EncryptedView { rekey: None, exchange: Some(exchange), ..e },
                    ),
                    bytes: 0,
                    cipher,
                    ..s
                },
                StepView::KeysInstalled,
            ),
        ),
        b[0] != msg::NEWKEYS ==> read_encrypted(s, b) == Err::<
            (SessionView<T>, StepView<T>),
            Error,
        >(Error::Kex),
{
}

/// Without encryption a packet changes nothing and asks for nothing.
pub proof fn law_unencrypted_ignored<T: Transport>(s: SessionView<T>, b: Seq<u8>)
    requires
        s.encrypted is None,
        b[0] != msg::KEXINIT,
    ensures
        read_encrypted(s, b) == goes_on(s),
{
}

/// Once this side has sent its half, exactly that is noted; once the server's key has been
/// checked, the outcome is noted, and the one-byte packet that announces the new keys goes to the
/// cipher behind what is there.
pub proof fn law_key_exchange_noted<T: Transport>(
    s: SessionView<T>,
    e: EncryptedView<T>,
    ignore_guessed: bool,
    state: T::DhDone,
    kex: Kex<T>,
)
    requires
        s.encrypted == Some(e),
    ensures
        half_sent(s, ignore_guessed, state) == becomes(
            s,
            EncryptedView { rekey: Some(Kex::KexDhDone { ignore_guessed, state }), ..e },
        ),
        key_checked(s, kex) == (SessionView {
            encrypted: Some(EncryptedView { rekey: Some(kex), ..e }),
            write_buffer: s.write_buffer + be32(1) + seq![msg::NEWKEYS],
            ..s
        }),
{
    assert(key_checked(s, kex).write_buffer =~= s.write_buffer + be32(1) + seq![msg::NEWKEYS]);
}

/// A packet that waits for the cipher is appended with its length in front, behind what waits, and
/// nothing else changes; the same holds of a packet that goes straight to the cipher.
pub proof fn law_packets_appended<T: Transport>(
    s: SessionView<T>,
    e: EncryptedView<T>,
    body: Seq<u8>,
)
    requires
        s.encrypted == Some(e),
    ensures
        s.sends(body) == becomes(
            s,
            EncryptedView { write: e.write + be32(body.len() as u32) + body, ..e },
        ),
        s.sends_now(body) == (SessionView {
            write_buffer: s.write_buffer + be32(body.len() as u32) + body,
            ..s
        }),
{
    assert(e.write + packet(body) =~= e.write + be32(body.len() as u32) + body);
    assert(s.write_buffer + packet(body) =~= s.write_buffer + be32(body.len() as u32) + body);
}

/// What comes of the answer to the request for a service.
proof fn lemma_service_answered<T: Transport>(
    s: SessionView<T>,
    e: EncryptedView<T>,
    b: Seq<u8>,
    sent: bool,
    accepted: bool,
)
    requires
        s.encrypted == Some(e),
        e.state == (EncryptedState::WaitingServiceRequest { sent, accepted }),
    ensures
        b[0] != msg::SERVICE_ACCEPT ==> service_answered(s, e, sent, accepted, b) == Err::<
            (SessionView<T>, StepView<T>),
            Error,
        >(Error::Inconsistent),
        b[0] == msg::SERVICE_ACCEPT ==> match string_at(b, 1) {
            None => service_answered(s, e, sent, accepted, b) == short::<T>(),
            Some(name) => if name != "ssh-userauth".spec_bytes() {
                service_answered(s, e, sent, accepted, b) == goes_on(s)
            } else {
                service_answered(s, e, sent, accepted, b) matches Ok((t, step)) && {
                    let f = t.encrypted->Some_0;
                    &&& step == StepView::<T>::Done
                    &&& t == becomes(s, f)
                    &&& f == (EncryptedView { state: f.state, write: f.write, ..e })
                    &&& match s.auth_method {
                        Some(method) => {
                            &&& f.write == e.write + packet(auth_request(s.auth_user, method))
                            &&& f.state matches EncryptedState::WaitingAuthRequest(a)
                            &&& a.methods.none && a.methods.password && a.methods.publickey
                            &&& a.methods.hostbased && a.methods.keyboard_interactive
                            &&& !a.partial_success
                            &&& a.current is None
                            &&& a.rejection_count == 0
                        },
                        None => f.write == e.write && f.state == (
                        EncryptedState::WaitingServiceRequest { sent, accepted: true }),
                    }
                }
            },
        },
{
}

/// The server's answer to the request for a service: if it accepts the authentication service, the
/// request of the user is appended and the authentication begins with every method open, or the
/// acceptance is noted if the user has not chosen yet. Another service changes nothing, and
/// another packet ends the session.
pub proof fn law_service_answer<T: Transport>(
    s: SessionView<T>,
    e: EncryptedView<T>,
    b: Seq<u8>,
    sent: bool,
    accepted: bool,
)
    requires
        s.encrypted == Some(e),
        e.rekey matches Some(kex) ==> kex is KexInit,
        e.state == (EncryptedState::WaitingServiceRequest { sent, accepted }),
        b[0] != msg::KEXINIT,
    ensures
        b[0] != msg::SERVICE_ACCEPT ==> read_encrypted(s, b) == Err::<
            (SessionView<T>, StepView<T>),
            Error,
        >(Error::Inconsistent),
        b[0] == msg::SERVICE_ACCEPT ==> match string_at(b, 1) {
            None => read_encrypted(s, b) == short::<T>(),
            Some(name) => if name != "ssh-userauth".spec_bytes() {
                read_encrypted(s, b) == goes_on(s)
            } else {
                read_encrypted(s, b) matches Ok((t, step)) && {
                    let f = t.encrypted->Some_0;
                    &&& step == StepView::<T>::Done
                    &&& t == becomes(s, f)
                    &&& f == (EncryptedView { state: f.state, write: f.write, ..e })
                    &&& match s.auth_method {
                        Some(method) => {
                            &&& f.write == e.write + packet(auth_request(s.auth_user, method))
                            &&& f.state matches EncryptedState::WaitingAuthRequest(a)
                            &&& a.methods.none && a.methods.password && a.methods.publickey
                            &&& a.methods.hostbased && a.methods.keyboard_interactive
                            &&& !a.partial_success
                            &&& a.current is None
                            &&& a.rejection_count == 0
                        },
                        None => f.write == e.write && f.state == (
                        EncryptedState::WaitingServiceRequest { sent, accepted: true }),
                    }
                }
            },
        },
{
    assert(read_encrypted(s, b) == service_answered(s, e, sent, accepted, b));
    lemma_service_answered(s, e, b, sent, accepted);
}

/// The session waits for the answer to a request of its user.
pub open spec fn authenticates<T: Transport>(
    s: SessionView<T>,
    e: EncryptedView<T>,
    a: AuthRequest,
) -> bool {
    &&& s.encrypted == Some(e)
    &&& e.rekey matches Some(kex) ==> kex is KexInit
    &&& e.state == EncryptedState::WaitingAuthRequest(a)
}

/// What an authentication makes of an answer.
proof fn lemma_answers<T: Transport>(
    s: SessionView<T>,
    e: EncryptedView<T>,
    a: AuthRequest,
    b: Seq<u8>,
)
    requires
        s.encrypted == Some(e),
    ensures
        b[0] == msg::USERAUTH_SUCCESS ==> auth_answered(s, e, a, b) == Ok::<
            (SessionView<T>, StepView<T>),
            Error,
        >(
            (
                becomes(s, EncryptedView { state: EncryptedState::InitCompression, ..e }),
                StepView::AuthSuccess,
            ),
        ),
        b[0] == msg::USERAUTH_BANNER ==> match string_at(b, 1) {
            Some(text) => if valid_utf8(text) {
                auth_answered(s, e, a, b) == Ok::<(SessionView<T>, StepView<T>), Error>(
                    (s, StepView::AuthBanner { banner: decode_utf8(text) }),
                )
            } else {
                auth_answered(s, e, a, b) == goes_on(s)
            },
            None => auth_answered(s, e, a, b) == short::<T>(),
        },
        b[0] != msg::USERAUTH_SUCCESS && b[0] != msg::USERAUTH_BANNER && b[0]
            != msg::USERAUTH_FAILURE && b[0] != msg::USERAUTH_PK_OK ==> auth_answered(s, e, a, b)
            == Err::<(SessionView<T>, StepView<T>), Error>(Error::Inconsistent),
{
}

/// The server lets the user in, shows a text, refuses a request, or accepts a key; anything else
/// ends the session. Success moves the session on and changes nothing else. A text is shown as it
/// stands in the packet; what is no text is skipped.
pub proof fn law_authentication_answers<T: Transport>(
    s: SessionView<T>,
    e: EncryptedView<T>,
    a: AuthRequest,
    b: Seq<u8>,
)
    requires
        authenticates(s, e, a),
        b[0] != msg::KEXINIT,
    ensures
        b[0] == msg::USERAUTH_SUCCESS ==> read_encrypted(s, b) == Ok::<
            (SessionView<T>, StepView<T>),
            Error,
        >(
            (
                becomes(s, EncryptedView { state: EncryptedState::InitCompression, ..e }),
                StepView::AuthSuccess,
            ),
        ),
        b[0] == msg::USERAUTH_BANNER ==> match string_at(b, 1) {
            Some(text) => if valid_utf8(text) {
                read_encrypted(s, b) == Ok::<(SessionView<T>, StepView<T>), Error>(
                    (s, StepView::AuthBanner { banner: decode_utf8(text) }),
                )
            } else {
                read_encrypted(s, b) == goes_on(s)
            },
            None => read_encrypted(s, b) == short::<T>(),
        },
        b[0] != msg::USERAUTH_SUCCESS && b[0] != msg::USERAUTH_BANNER && b[0]
            != msg::USERAUTH_FAILURE && b[0] != msg::USERAUTH_PK_OK ==> read_encrypted(s, b)
            == Err::<(SessionView<T>, StepView<T>), Error>(Error::Inconsistent),
{
    assert(read_encrypted(s, b) == auth_answered(s, e, a, b));
    lemma_answers(s, e, a, b);
}

/// What an authentication makes of a refusal.
proof fn lemma_refused<T: Transport>(
    s: SessionView<T>,
    e: EncryptedView<T>,
    a: AuthRequest,
    b: Seq<u8>,
)
    requires
        s.encrypted == Some(e),
        b[0] == msg::USERAUTH_FAILURE,
    ensures
        match string_at(b, 1) {
            Some(list) => auth_answered(s, e, a, b) == Ok::<(SessionView<T>, StepView<T>), Error>(
                (
                    SessionView {
                        auth_method: None,
                        encrypted: Some(
                            EncryptedView {
                                state: EncryptedState::WaitingAuthRequest(
                                    AuthRequest { methods: MethodSet::listed(list), ..a },
                                ),
                                ..e
                            },
                        ),
                        ..s
                    },
                    StepView::AuthFailure,
                ),
            ),
            None => auth_answered(s, e, a, b) == short::<T>(),
        },
{
}

/// A refused request uses up the method, and leaves open exactly the methods that the packet
/// lists. Nothing else changes, and the user is told.
pub proof fn law_request_refused<T: Transport>(
    s: SessionView<T>,
    e: EncryptedView<T>,
    a: AuthRequest,
    b: Seq<u8>,
)
    requires
        authenticates(s, e, a),
        b[0] == msg::USERAUTH_FAILURE,
    ensures
        match string_at(b, 1) {
            Some(list) => read_encrypted(s, b) == Ok::<(SessionView<T>, StepView<T>), Error>(
                (
                    SessionView {
                        auth_method: None,
                        encrypted: Some(
                            EncryptedView {
                                state: EncryptedState::WaitingAuthRequest(
                                    AuthRequest { methods: MethodSet::listed(list), ..a },
                                ),
                                ..e
                            },
                        ),
                        ..s
                    },
                    StepView::AuthFailure,
                ),
            ),
            None => read_encrypted(s, b) == short::<T>(),
        },
{
    assert(read_encrypted(s, b) == auth_answered(s, e, a, b));
    lemma_refused(s, e, a, b);
}

/// What is to be signed for a key: the identity of the session with its length in front, then,
/// from `offset` on, the request of that user with that key and the flag set.
pub open spec fn covers_session(
    data: Seq<u8>,
    offset: int,
    session_id: Seq<u8>,
    user: Seq<char>,
    key: PublicKey,
) -> bool {
    &&& offset == 4 + session_id.len()
    &&& data.len() == offset + key_request(user, key, true).len()
    &&& data.take(4) == be32(session_id.len() as u32)
    &&& data.subrange(4, offset) == session_id
    &&& data.skip(offset) == key_request(user, key, true)
}

/// What an accepted key has signed.
proof fn lemma_key_handled<T: Transport>(s: SessionView<T>, e: EncryptedView<T>, a: AuthRequest)
    ensures
        ({
            let (t, step) = key_handled(s, e, a);
            match s.auth_method {
                Some(Method::PublicKey { key, pair }) => step == (StepView::<T>::Sign {
                    pair,
                    data: to_sign(e.session_id, s.auth_user, key),
                    offset: 4 + e.session_id.len() as int,
                }),
                Some(Method::FuturePublicKey { key }) => step == (StepView::<
                    T,
                >::RequestSignature {
                    key,
                    data: to_sign(e.session_id, s.auth_user, key),
                    offset: 4 + e.session_id.len() as int,
                }),
                _ => step == StepView::<T>::Done,
            }
        }),
{
}

/// An accepted key has the request signed, over the identity of this session, whether a key pair
/// signs here or the owner of the key on demand: the data is the same for both. The method is used
/// up, the acceptance is noted, and nothing is sent yet. Without a key there is nothing to sign.
pub proof fn law_accepted_key_signs<T: Transport>(
    s: SessionView<T>,
    e: EncryptedView<T>,
    a: AuthRequest,
    b: Seq<u8>,
)
    requires
        authenticates(s, e, a),
        b[0] == msg::USERAUTH_PK_OK,
    ensures
        read_encrypted(s, b) matches Ok((t, step)) && {
            let noted = match a.current {
                Some(CurrentRequest::PublicKey { .. }) => AuthRequest {
                    current: Some(CurrentRequest::PublicKey { sent_pk_ok: true }),
                    ..a
                },
                _ => a,
            };
            &&& t == (SessionView {
                auth_method: None,
                encrypted: Some(
                    EncryptedView { state: EncryptedState::WaitingAuthRequest(noted), ..e },
                ),
                buffer: t.buffer,
                ..s
            })
            &&& match s.auth_method {
                Some(Method::PublicKey { key, pair }) => {
                    &&& step matches StepView::Sign { pair: signer, data, offset }
                    &&& signer == pair
                    &&& covers_session(data, offset, e.session_id, s.auth_user, key)
                    &&& t.buffer == Seq::<u8>::empty()
                },
                Some(Method::FuturePublicKey { key }) => {
                    &&& step matches StepView::RequestSignature { key: asked, data, offset }
                    &&& asked == key
                    &&& covers_session(data, offset, e.session_id, s.auth_user, key)
                    &&& t.buffer == Seq::<u8>::empty()
                },
                _ => step == StepView::<T>::Done && t.buffer == s.buffer,
            }
        },
{
    assert(read_encrypted(s, b) == Ok::<(SessionView<T>, StepView<T>), Error>(
        key_handled(s, e, a),
    ));
    lemma_key_handled(s, e, a);
    match s.auth_method {
        Some(Method::PublicKey { key, pair }) => {
            law_signed_data_covers_session(e.session_id, s.auth_user, key);
        },
        Some(Method::FuturePublicKey { key }) => {
            law_signed_data_covers_session(e.session_id, s.auth_user, key);
        },
        _ => {},
    }
}

/// What is signed for a key covers the identity of the session and the request.
pub proof fn law_signed_data_covers_session(session_id: Seq<u8>, user: Seq<char>, key: PublicKey)
    ensures
        covers_session(
            to_sign(session_id, user, key),
            4 + session_id.len() as int,
            session_id,
            user,
            key,
        ),
{
    let data = to_sign(session_id, user, key);
    let offset = 4 + session_id.len() as int;
    assert(data.take(4) =~= be32(session_id.len() as u32));
    assert(data.subrange(4, offset) =~= session_id);
    assert(data.skip(offset) =~= key_request(user, key, true));
}

/// When a user chooses a name and a method, both are noted; the service is asked for if it has not
/// been; the request is appended if the server waits for one, which is so once it has accepted the
/// service; and nothing else changes.
pub proof fn law_choice_noted<T: Transport>(
    s: SessionView<T>,
    e: EncryptedView<T>,
    user: Seq<char>,
    method: Method<T>,
)
    requires
        s.encrypted == Some(e),
    ensures
        ({
            let t = auth_chosen(s, user, method);
            let f = t.encrypted->Some_0;
            &&& awaits_auth_request(s) == (match e.state {
                EncryptedState::WaitingServiceRequest { accepted, .. } => accepted,
                EncryptedState::WaitingAuthRequest(_) => true,
                EncryptedState::InitCompression => false,
                EncryptedState::Authenticated => false,
            })
            &&& t == (SessionView {
                auth_user: user,
                auth_method: Some(method),
                encrypted: Some(f),
                write_buffer: t.write_buffer,
                ..s
            })
            &&& f == (EncryptedView { state: f.state, write: f.write, ..e })
            &&& t.write_buffer == (match e.state {
                EncryptedState::WaitingServiceRequest { sent: false, .. } => s.write_buffer
                    + packet(seq![msg::SERVICE_REQUEST] + ssh_string("ssh-userauth".spec_bytes())),
                _ => s.write_buffer,
            })
        }),
{
}

/// The lengths of the names in a request.
proof fn lemma_request_words()
    ensures
        "ssh-connection".spec_bytes().len() == 14,
        "publickey".spec_bytes().len() == 9,
        "password".spec_bytes().len() == 8,
{
    reveal_strlit("ssh-connection");
    reveal_strlit("publickey");
    reveal_strlit("password");
    assert(vstd::string::is_ascii("ssh-connection"));
    assert(vstd::string::is_ascii("publickey"));
    assert(vstd::string::is_ascii("password"));
}

/// A request with a key holds, in order, the name of the user, the service, the word for the
/// method, the flag, the name of the algorithm and the key, and nothing more.
pub proof fn law_key_request_fields(user: Seq<char>, key: PublicKey, signed: bool)
    requires
        encode_utf8(user).len() <= u32::MAX,
        encode_utf8(key.name@).len() <= u32::MAX,
        key.blob@.len() <= u32::MAX,
    ensures
        ({
            let r = key_request(user, key, signed);
            let u = encode_utf8(user).len() as int;
            let n = encode_utf8(key.name@).len() as int;
            &&& r.len() == 45 + u + n + key.blob@.len()
            &&& r[0] == msg::USERAUTH_REQUEST
            &&& string_at(r, 1) == Some(encode_utf8(user))
            &&& string_at(r, 5 + u) == Some("ssh-connection".spec_bytes())
            &&& string_at(r, 23 + u) == Some("publickey".spec_bytes())
            &&& r[36 + u] == (if signed {
                1u8
            } else {
                0u8
            })
            &&& string_at(r, 37 + u) == Some(encode_utf8(key.name@))
            &&& string_at(r, 41 + u + n) == Some(key.blob@)
        }),
{
    lemma_request_words();
    let r = key_request(user, key, signed);
    let u = encode_utf8(user).len() as int;
    let n = encode_utf8(key.name@).len() as int;
    assert(string_at(r, 1) == Some(encode_utf8(user))) by {
        assert(r.subrange(1, 5 + u) =~= ssh_string(encode_utf8(user)));
        lemma_string_at(r, 1, encode_utf8(user));
    }
    assert(string_at(r, 5 + u) == Some("ssh-connection".spec_bytes())) by {
        assert(r.subrange(5 + u, 23 + u) =~= ssh_string("ssh-connection".spec_bytes()));
        lemma_string_at(r, 5 + u, "ssh-connection".spec_bytes());
    }
    assert(string_at(r, 23 + u) == Some("publickey".spec_bytes())) by {
        assert(r.subrange(23 + u, 36 + u) =~= ssh_string("publickey".spec_bytes()));
        lemma_string_at(r, 23 + u, "publickey".spec_bytes());
    }
    assert(string_at(r, 37 + u) == Some(encode_utf8(key.name@))) by {
        assert(r.subrange(37 + u, 41 + u + n) =~= ssh_string(encode_utf8(key.name@)));
        lemma_string_at(r, 37 + u, encode_utf8(key.name@));
    }
    assert(string_at(r, 41 + u + n) == Some(key.blob@)) by {
        assert(r.subrange(41 + u + n, r.len() as int) =~= ssh_string(key.blob@));
        lemma_string_at(r, 41 + u + n, key.blob@);
    }
}

/// A request with a password holds, in order, the name of the user, the service, the word for the
/// method, a flag that is set, and the password, and nothing more.
pub proof fn law_password_request_fields(user: Seq<char>, password: Seq<char>)
    requires
        encode_utf8(user).len() <= u32::MAX,
        encode_utf8(password).len() <= u32::MAX,
    ensures
        ({
            let r = password_request(user, password);
            let u = encode_utf8(user).len() as int;
            &&& r.len() == 40 + u + encode_utf8(password).len()
            &&& r[0] == msg::USERAUTH_REQUEST
            &&& string_at(r, 1) == Some(encode_utf8(user))
            &&& string_at(r, 5 + u) == Some("ssh-connection".spec_bytes())
            &&& string_at(r, 23 + u) == Some("password".spec_bytes())
            &&& r[35 + u] == 1
            &&& string_at(r, 36 + u) == Some(encode_utf8(password))
        }),
{
    lemma_request_words();
    let r = password_request(user, password);
    let u = encode_utf8(user).len() as int;
    assert(string_at(r, 1) == Some(encode_utf8(user))) by {
        assert(r.subrange(1, 5 + u) =~= ssh_string(encode_utf8(user)));
        lemma_string_at(r, 1, encode_utf8(user));
    }
    assert(string_at(r, 5 + u) == Some("ssh-connection".spec_bytes())) by {
        assert(r.subrange(5 + u, 23 + u) =~= ssh_string("ssh-connection".spec_bytes()));
        lemma_string_at(r, 5 + u, "ssh-connection".spec_bytes());
    }
    assert(string_at(r, 23 + u) == Some("password".spec_bytes())) by {
        assert(r.subrange(23 + u, 35 + u) =~= ssh_string("password".spec_bytes()));
        lemma_string_at(r, 23 + u, "password".spec_bytes());
    }
    assert(string_at(r, 36 + u) == Some(encode_utf8(password))) by {
        assert(r.subrange(36 + u, r.len() as int) =~= ssh_string(encode_utf8(password)));
        lemma_string_at(r, 36 + u, encode_utf8(password));
    }
}

/// The request that opens an authentication is the one of its method: the password for a password,
/// and for a key the question whether it would do.
pub proof fn law_request_of_method<T: Transport>(user: Seq<char>, method: Method<T>)
    ensures
        match method {
            Method::Password { password } => auth_request(user, method) == password_request(
                user,
                password@,
            ),
            Method::PublicKey { key, .. } => auth_request(user, method) == key_request(
                user,
                key,
                false,
            ),
            Method::FuturePublicKey { key } => auth_request(user, method) == key_request(
                user,
                key,
                false,
            ),
        },
{
}

} // verus!
