//! The client's session, and what it asks of the layers around it.
pub mod accept;
pub mod auth_laws;
pub mod channel;
pub mod encrypted;
pub mod laws;
pub mod packet_laws;
pub mod shell;
pub mod tunnel;

use crate::auth::{Method, PublicKey};
use crate::buffer::contents;
use crate::encoding::packet;
use crate::names::{ChannelOpenFailure, Sig, SigView};
use crate::session::{
    ChannelId, CommonSession, Config, EncryptedView, IpAddr, SocketAddr, Transport,
};
use cryptovec::CryptoVec;
use std::collections::HashMap;
use vstd::prelude::*;

verus! {

broadcast use vstd::std_specs::hash::group_hash_axioms;

/// Which channel listens for the connections to a forwarded address. No address occurs twice.
pub struct ForwardTable {
    entries: Vec<(SocketAddr, ChannelId)>,
}

/// The channels of the addresses in a list of pairs.
spec fn table_of(entries: Seq<(SocketAddr, ChannelId)>) -> Map<SocketAddr, ChannelId> {
    Map::new(
        |a: SocketAddr| exists|i: int| 0 <= i < entries.len() && (#[trigger] entries[i]).0 == a,
        |a: SocketAddr|
            entries[choose|i: int|
                0 <= i < entries.len() && (#[trigger] entries[i]).0 == a].1,
    )
}

/// No address occurs twice.
spec fn distinct(entries: Seq<(SocketAddr, ChannelId)>) -> bool {
    forall|i: int, j: int|
        0 <= i < j < entries.len() ==> (#[trigger] entries[i]).0 != (#[trigger] entries[j]).0
}

impl View for ForwardTable {
    type V = Map<SocketAddr, ChannelId>;

    closed spec fn view(&self) -> Map<SocketAddr, ChannelId> {
        table_of(self.entries@)
    }
}

impl ForwardTable {
    #[verifier::type_invariant]
    spec fn inv(&self) -> bool {
        distinct(self.entries@)
    }

    /// A table without an address.
    pub fn new() -> (r: ForwardTable)
        ensures
            r@ == Map::<SocketAddr, ChannelId>::empty(),
    {
        let r = ForwardTable { entries: Vec::new() };
        assert(r@ =~= Map::<SocketAddr, ChannelId>::empty());
        r
    }

    /// The channel that listens for the connections to an address.
    pub fn get(&self, address: SocketAddr) -> (r: Option<ChannelId>)
        ensures
            match r {
                Some(id) => self@.contains_key(address) && self@[address] == id,
                None => !self@.contains_key(address),
            },
    {
        proof {
            use_type_invariant(self);
        }
        let mut i: usize = 0;
        while i < self.entries.len()
            invariant
                i <= self.entries@.len(),
                distinct(self.entries@),
                forall|j: int| 0 <= j < i ==> (#[trigger] self.entries@[j]).0 != address,
            decreases self.entries.len() - i,
        {
            if self.entries[i].0 == address {
                proof {
                    let k = choose|k: int|
                        0 <= k < self.entries@.len() && (#[trigger] self.entries@[k]).0 == address;
                    assert(self.entries@[i as int].0 == address);
                    assert(k == i);
                }
                return Some(self.entries[i].1);
            }
            i = i + 1;
        }
        None
    }

    /// Lets a channel listen for the connections to an address.
    pub fn insert(&mut self, address: SocketAddr, id: ChannelId)
        ensures
            final(self)@ == old(self)@.insert(address, id),
    {
        proof {
            use_type_invariant(&*self);
        }
        let mut entries: Vec<(SocketAddr, ChannelId)> = Vec::new();
        let mut i: usize = 0;
        while i < self.entries.len()
            invariant
                i <= self.entries@.len(),
                *self == *old(self),
                distinct(self.entries@),
                distinct(entries@),
                forall|j: int| 0 <= j < entries@.len() ==> (#[trigger] entries@[j]).0 != address,
                forall|j: int|
                    0 <= j < entries@.len() ==> exists|k: int|
                        0 <= k < i && self.entries@[k] == #[trigger] entries@[j],
                forall|k: int|
                    0 <= k < i && (#[trigger] self.entries@[k]).0 != address ==> entries@.contains(
                        self.entries@[k],
                    ),
            decreases self.entries.len() - i,
        {
            let ghost before = entries@;
            if self.entries[i].0 != address {
                entries.push(self.entries[i]);
                assert forall|k: int|
                    0 <= k < i + 1 && (#[trigger] self.entries@[k]).0
                        != address implies entries@.contains(self.entries@[k]) by {
                    if k < i {
                        assert(before.contains(self.entries@[k]));
                        let j = choose|j: int|
                            0 <= j < before.len() && before[j] == self.entries@[k];
                        assert(entries@[j] == self.entries@[k]);
                    } else {
                        assert(entries@[before.len() as int] == self.entries@[k]);
                    }
                }
            }
            i = i + 1;
        }
        let ghost kept = entries@;
        entries.push((address, id));
        proof {
            let all = self.entries@;
            let new = entries@;
            assert(new[kept.len() as int] == (address, id));
            assert forall|a: SocketAddr| #[trigger]
                table_of(new).contains_key(a) == table_of(all).insert(address, id).contains_key(
                    a,
                ) by {
                if table_of(all).contains_key(a) && a != address {
                    let k = choose|k: int| 0 <= k < all.len() && (#[trigger] all[k]).0 == a;
                    assert(kept.contains(all[k]));
                    let j = choose|j: int| 0 <= j < kept.len() && kept[j] == all[k];
                    assert(new[j].0 == a);
                }
                if table_of(new).contains_key(a) && a != address {
                    let j = choose|j: int| 0 <= j < new.len() && (#[trigger] new[j]).0 == a;
                    assert(new[j] == kept[j]);
                    let k = choose|k: int| 0 <= k < all.len() && all[k] == kept[j];
                    assert(all[k].0 == a);
                }
            }
            assert forall|a: SocketAddr| #[trigger] table_of(new).contains_key(a) implies table_of(
                new,
            )[a] == table_of(all).insert(address, id)[a] by {
                let j = choose|j: int| 0 <= j < new.len() && (#[trigger] new[j]).0 == a;
                if a == address {
                    assert(j == kept.len());
                } else {
                    assert(new[j] == kept[j]);
                    let k = choose|k: int| 0 <= k < all.len() && all[k] == kept[j];
                    let m = choose|m: int| 0 <= m < all.len() && (#[trigger] all[m]).0 == a;
                    assert(all[k].0 == a);
                    assert(k == m);
                }
            }
            assert(table_of(new) =~= table_of(all).insert(address, id));
        }
        self.entries = entries;
    }
}

/// A client's session.
pub struct Session<T: Transport> {
    pub common: CommonSession<T>,
    /// The queues of the channels.
    pub channels: HashMap<u32, T::Sender>,
    /// The channels that listen for forwarded connections.
    pub remote_forward_channels: ForwardTable,
    pub target_window_size: u32,
}

/// The mathematical counterpart of `Session`.
#[verifier::ext_equal]
pub struct SessionView<T: Transport> {
    pub auth_user: Seq<char>,
    pub config: Config,
    pub encrypted: Option<EncryptedView<T>>,
    pub auth_method: Option<Method<T>>,
    pub write_buffer: Seq<u8>,
    pub bytes: usize,
    pub cipher: T::Cipher,
    pub buffer: Seq<u8>,
    pub channels: Map<u32, T::Sender>,
    pub remote_forward_channels: Map<SocketAddr, ChannelId>,
    pub target_window_size: u32,
}

impl<T: Transport> View for Session<T> {
    type V = SessionView<T>;

    open spec fn view(&self) -> SessionView<T> {
        SessionView {
            auth_user: self.common.auth_user@,
            config: self.common.config,
            encrypted: match self.common.encrypted {
                Some(e) => Some(e@),
                None => None,
            },
            auth_method: self.common.auth_method,
            write_buffer: contents(self.common.write_buffer.buffer),
            bytes: self.common.write_buffer.bytes,
            cipher: self.common.cipher,
            buffer: contents(self.common.buffer),
            channels: self.channels@,
            remote_forward_channels: self.remote_forward_channels@,
            target_window_size: self.target_window_size,
        }
    }
}

impl<T: Transport> SessionView<T> {
    /// The session with another encrypted part.
    pub open spec fn with(self, e: EncryptedView<T>) -> SessionView<T> {
        SessionView { encrypted: Some(e), ..self }
    }

    /// The session after a packet has been appended to those that wait for the cipher.
    pub open spec fn sends(self, body: Seq<u8>) -> SessionView<T> {
        match self.encrypted {
            Some(e) => self.with(e.sends(body)),
            None => self,
        }
    }

    /// The session after a packet has gone straight to the cipher.
    pub open spec fn sends_now(self, body: Seq<u8>) -> SessionView<T> {
        SessionView { write_buffer: self.write_buffer + packet(body), ..self }
    }

    /// The session without a channel.
    pub open spec fn without(self, id: u32) -> SessionView<T> {
        match self.encrypted {
            Some(e) => self.with(EncryptedView { channels: e.channels.remove(id), ..e }),
            None => self,
        }
    }

    /// `n` more bytes fit the packets that wait for the cipher.
    pub open spec fn room(self, n: nat) -> bool {
        match self.encrypted {
            Some(e) => e.room(n),
            None => true,
        }
    }
}

/// What the user of a session is told about a channel.
pub enum Callback<'a> {
    OpenConfirmation { id: ChannelId, max_packet: u32, window: u32 },
    Close { id: ChannelId },
    Eof { id: ChannelId },
    OpenFailure {
        id: ChannelId,
        reason: ChannelOpenFailure,
        description: &'a str,
        language: &'a str,
    },
    /// Data has come in. `window_adjusted`: the window was opened again on that account.
    Data { id: ChannelId, data: &'a [u8], window_adjusted: bool },
    ExtendedData { id: ChannelId, code: u32, data: &'a [u8], window_adjusted: bool },
    OpenForwardedTcpip {
        id: ChannelId,
        connected_address: &'a str,
        connected_port: u32,
        originator_address: &'a str,
        originator_port: u32,
    },
    XonXoff { id: ChannelId, client_can_do: bool },
    ExitStatus { id: ChannelId, exit_status: u32 },
    ExitSignal {
        id: ChannelId,
        signal: Sig,
        core_dumped: bool,
        error_message: &'a str,
        lang_tag: &'a str,
    },
    WindowAdjusted { id: ChannelId, new_size: u32 },
    Success { id: ChannelId },
}

/// The mathematical counterpart of `Callback`.
pub enum CallbackView {
    OpenConfirmation { id: ChannelId, max_packet: u32, window: u32 },
    Close { id: ChannelId },
    Eof { id: ChannelId },
    OpenFailure {
        id: ChannelId,
        reason: ChannelOpenFailure,
        description: Seq<char>,
        language: Seq<char>,
    },
    Data { id: ChannelId, data: Seq<u8>, window_adjusted: bool },
    ExtendedData { id: ChannelId, code: u32, data: Seq<u8>, window_adjusted: bool },
    OpenForwardedTcpip {
        id: ChannelId,
        connected_address: Seq<char>,
        connected_port: u32,
        originator_address: Seq<char>,
        originator_port: u32,
    },
    XonXoff { id: ChannelId, client_can_do: bool },
    ExitStatus { id: ChannelId, exit_status: u32 },
    ExitSignal {
        id: ChannelId,
        signal: SigView,
        core_dumped: bool,
        error_message: Seq<char>,
        lang_tag: Seq<char>,
    },
    WindowAdjusted { id: ChannelId, new_size: u32 },
    Success { id: ChannelId },
}

impl<'a> View for Callback<'a> {
    type V = CallbackView;

    open spec fn view(&self) -> CallbackView {
        match self {
            Callback::OpenConfirmation { id, max_packet, window } => {
                CallbackView::OpenConfirmation { id: *id, max_packet: *max_packet, window: *window }
            },
            Callback::Close { id } => CallbackView::Close { id: *id },
            Callback::Eof { id } => CallbackView::Eof { id: *id },
            Callback::OpenFailure { id, reason, description, language } => {
                CallbackView::OpenFailure {
                    id: *id,
                    reason: *reason,
                    description: description@,
                    language: language@,
                }
            },
            Callback::Data { id, data, window_adjusted } => CallbackView::Data {
                id: *id,
                data: data@,
                window_adjusted: *window_adjusted,
            },
            Callback::ExtendedData { id, code, data, window_adjusted } => {
                CallbackView::ExtendedData {
                    id: *id,
                    code: *code,
                    data: data@,
                    window_adjusted: *window_adjusted,
                }
            },
            Callback::OpenForwardedTcpip {
                id,
                connected_address,
                connected_port,
                originator_address,
                originator_port,
            } => CallbackView::OpenForwardedTcpip {
                id: *id,
                connected_address: connected_address@,
                connected_port: *connected_port,
                originator_address: originator_address@,
                originator_port: *originator_port,
            },
            Callback::XonXoff { id, client_can_do } => CallbackView::XonXoff {
                id: *id,
                client_can_do: *client_can_do,
            },
            Callback::ExitStatus { id, exit_status } => CallbackView::ExitStatus {
                id: *id,
                exit_status: *exit_status,
            },
            Callback::ExitSignal { id, signal, core_dumped, error_message, lang_tag } => {
                CallbackView::ExitSignal {
                    id: *id,
                    signal: signal@,
                    core_dumped: *core_dumped,
                    error_message: error_message@,
                    lang_tag: lang_tag@,
                }
            },
            Callback::WindowAdjusted { id, new_size } => CallbackView::WindowAdjusted {
                id: *id,
                new_size: *new_size,
            },
            Callback::Success { id } => CallbackView::Success { id: *id },
        }
    }
}

/// What is to be done after a packet has been read.
pub enum Step<'a, T: Transport> {
    /// Nothing.
    Done,
    /// Answer the server's algorithms for a key exchange that this side has started, hand the
    /// outcome to `rekey_parsed`, and flush.
    ParseKexInit { kexinit: T::Init },
    /// Choose algorithms for a key exchange that the server has started, answer them, and hand
    /// the outcome to `rekey_parsed`.
    ReceiveRekey { exchange: T::Exchange },
    /// Check the server's key and hand the outcome to `server_key_checked`, then flush.
    CheckServerKey { dh_done: T::DhDone },
    /// New keys are in use: note the time.
    KeysInstalled,
    /// Tell the user that the server has let them in, call `auth_success_reported`, and start to
    /// decompress.
    AuthSuccess,
    /// Show the user a text of the server.
    AuthBanner { banner: &'a str },
    /// Tell the user that the server has not let them in, then call `auth_failure_reported`.
    AuthFailure,
    /// Append a signature over `data` to `data`, then call `signed`.
    Sign { pair: T::KeyPair, data: CryptoVec, offset: usize },
    /// Ask the owner of the key to sign `data`, call `signature_requested`, wait for the owner,
    /// then call `signed_by_owner`.
    RequestSignature { key: PublicKey, data: CryptoVec, offset: usize },
    /// Tell the user about a channel.
    Call(Callback<'a>),
    /// Make a queue for the new channel, call `forwarded_tcpip_open`, and deliver what it returns.
    ForwardedTcpip {
        ip: IpAddr,
        port: u32,
        sender_channel: u32,
        window: u32,
        max_packet: u32,
    },
}

/// The mathematical counterpart of `Step`.
#[verifier::ext_equal]
pub enum StepView<T: Transport> {
    Done,
    ParseKexInit { kexinit: T::Init },
    ReceiveRekey { exchange: T::Exchange },
    CheckServerKey { dh_done: T::DhDone },
    KeysInstalled,
    AuthSuccess,
    AuthBanner { banner: Seq<char> },
    AuthFailure,
    Sign { pair: T::KeyPair, data: Seq<u8>, offset: int },
    RequestSignature { key: PublicKey, data: Seq<u8>, offset: int },
    Call(CallbackView),
    ForwardedTcpip {
        ip: IpAddr,
        port: u32,
        sender_channel: u32,
        window: u32,
        max_packet: u32,
    },
}

impl<'a, T: Transport> View for Step<'a, T> {
    type V = StepView<T>;

    open spec fn view(&self) -> StepView<T> {
        match *self {
            Step::Done => StepView::Done,
            Step::ParseKexInit { kexinit } => StepView::ParseKexInit { kexinit },
            Step::ReceiveRekey { exchange } => StepView::ReceiveRekey { exchange },
            Step::CheckServerKey { dh_done } => StepView::CheckServerKey { dh_done },
            Step::KeysInstalled => StepView::KeysInstalled,
            Step::AuthSuccess => StepView::AuthSuccess,
            Step::AuthBanner { banner } => StepView::AuthBanner { banner: banner@ },
            Step::AuthFailure => StepView::AuthFailure,
            Step::Sign { pair, data, offset } => StepView::Sign {
                pair,
                data: contents(data),
                offset: offset as int,
            },
            Step::RequestSignature { key, data, offset } => StepView::RequestSignature {
                key,
                data: contents(data),
                offset: offset as int,
            },
            Step::Call(c) => StepView::Call(c@),
            Step::ForwardedTcpip { ip, port, sender_channel, window, max_packet } => {
                StepView::ForwardedTcpip {
                    ip,
                    port,
                    sender_channel,
                    window,
                    max_packet,
                }
            },
        }
    }
}

/// What is seen of a session is what it holds.
pub proof fn law_session_seen<T: Transport>(s: Session<T>)
    ensures
        s@.auth_user == s.common.auth_user@,
        s@.config == s.common.config,
        s@.encrypted is Some == s.common.encrypted is Some,
        s.common.encrypted matches Some(e) ==> s@.encrypted == Some(e@),
        s@.auth_method == s.common.auth_method,
        s@.write_buffer == contents(s.common.write_buffer.buffer),
        s@.bytes == s.common.write_buffer.bytes,
        s@.cipher == s.common.cipher,
        s@.buffer == contents(s.common.buffer),
        s@.channels == s.channels@,
        s@.remote_forward_channels == s.remote_forward_channels@,
        s@.target_window_size == s.target_window_size,
{
}

/// What is seen of a step is what it holds.
pub proof fn law_step_seen<T: Transport>(step: Step<'_, T>)
    ensures
        step is Done <==> step@ is Done,
        step is KeysInstalled <==> step@ is KeysInstalled,
        step is AuthSuccess <==> step@ is AuthSuccess,
        step is AuthFailure <==> step@ is AuthFailure,
        step matches Step::ParseKexInit { kexinit } ==> step@ == (StepView::<T>::ParseKexInit {
            kexinit,
        }),
        step matches Step::ReceiveRekey { exchange } ==> step@ == (StepView::<T>::ReceiveRekey {
            exchange,
        }),
        step matches Step::CheckServerKey { dh_done } ==> step@ == (StepView::<
            T,
        >::CheckServerKey { dh_done }),
        step matches Step::AuthBanner { banner } ==> step@ == (StepView::<T>::AuthBanner {
            banner: banner@,
        }),
        step matches Step::Sign { pair, data, offset } ==> step@ == (StepView::<T>::Sign {
            pair,
            data: contents(data),
            offset: offset as int,
        }),
        step matches Step::RequestSignature { key, data, offset } ==> step@ == (StepView::<
            T,
        >::RequestSignature { key, data: contents(data), offset: offset as int }),
        step matches Step::Call(c) ==> step@ == StepView::<T>::Call(c@),
        step matches Step::ForwardedTcpip { ip, port, sender_channel, window, max_packet }
            ==> step@ == (StepView::<T>::ForwardedTcpip {
            ip,
            port,
            sender_channel,
            window,
            max_packet,
        }),
{
}

/// What is seen of what the user is told is what it holds.
pub proof fn law_callback_seen(c: Callback<'_>)
    ensures
        c matches Callback::OpenConfirmation { id, max_packet, window } ==> c@ == (
        CallbackView::OpenConfirmation { id, max_packet, window }),
        c matches Callback::Close { id } ==> c@ == (CallbackView::Close { id }),
        c matches Callback::Eof { id } ==> c@ == (CallbackView::Eof { id }),
        c matches Callback::OpenFailure { id, reason, description, language } ==> c@ == (
        CallbackView::OpenFailure {
            id,
            reason,
            description: description@,
            language: language@,
        }),
        c matches Callback::Data { id, data, window_adjusted } ==> c@ == (CallbackView::Data {
            id,
            data: data@,
            window_adjusted,
        }),
        c matches Callback::ExtendedData { id, code, data, window_adjusted } ==> c@ == (
        CallbackView::ExtendedData { id, code, data: data@, window_adjusted }),
        c matches Callback::OpenForwardedTcpip {
            id,
            connected_address,
            connected_port,
            originator_address,
            originator_port,
        } ==> c@ == (CallbackView::OpenForwardedTcpip {
            id,
            connected_address: connected_address@,
            connected_port,
            originator_address: originator_address@,
            originator_port,
        }),
        c matches Callback::XonXoff { id, client_can_do } ==> c@ == (CallbackView::XonXoff {
            id,
            client_can_do,
        }),
        c matches Callback::ExitStatus { id, exit_status } ==> c@ == (CallbackView::ExitStatus {
            id,
            exit_status,
        }),
        c matches Callback::ExitSignal { id, signal, core_dumped, error_message, lang_tag } ==> c@
            == (CallbackView::ExitSignal {
            id,
            signal: signal@,
            core_dumped,
            error_message: error_message@,
            lang_tag: lang_tag@,
        }),
        c matches Callback::WindowAdjusted { id, new_size } ==> c@ == (
        CallbackView::WindowAdjusted { id, new_size }),
        c matches Callback::Success { id } ==> c@ == (CallbackView::Success { id }),
{
}

} // verus!
