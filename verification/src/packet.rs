//! The packets that a server sends to an authenticated client.
use crate::encoding::{byte_at, reader, same_bytes, string_at, u32_at, Position};
use crate::error::{text, text_of, Error};
use crate::msg;
use crate::names::{sig_named, Sig, SigView};
use vstd::prelude::*;
use vstd::string::StringSliceAdditionalSpecFns;

verus! {

/// A request of the server about a channel.
pub enum Request<'a> {
    ForwardedTcpip {
        connected_address: &'a str,
        connected_port: u32,
        originator_address: &'a str,
        originator_port: u32,
    },
    XonXoff { client_can_do: bool },
    ExitStatus { exit_status: u32 },
    ExitSignal { signal: Sig, core_dumped: bool, error_message: &'a str, lang_tag: &'a str },
    /// A request that a client does not know.
    Unknown,
}

/// The mathematical counterpart of `Request`.
pub enum RequestView {
    ForwardedTcpip {
        connected_address: Seq<char>,
        connected_port: u32,
        originator_address: Seq<char>,
        originator_port: u32,
    },
    XonXoff { client_can_do: bool },
    ExitStatus { exit_status: u32 },
    ExitSignal {
        signal: SigView,
        core_dumped: bool,
        error_message: Seq<char>,
        lang_tag: Seq<char>,
    },
    Unknown,
}

impl<'a> View for Request<'a> {
    type V = RequestView;

    open spec fn view(&self) -> RequestView {
        match self {
            Request::ForwardedTcpip {
                connected_address,
                connected_port,
                originator_address,
                originator_port,
            } => RequestView::ForwardedTcpip {
                connected_address: connected_address@,
                connected_port: *connected_port,
                originator_address: originator_address@,
                originator_port: *originator_port,
            },
            Request::XonXoff { client_can_do } => RequestView::XonXoff {
                client_can_do: *client_can_do,
            },
            Request::ExitStatus { exit_status } => RequestView::ExitStatus {
                exit_status: *exit_status,
            },
            Request::ExitSignal { signal, core_dumped, error_message, lang_tag } => {
                RequestView::ExitSignal {
                    signal: signal@,
                    core_dumped: *core_dumped,
                    error_message: error_message@,
                    lang_tag: lang_tag@,
                }
            },
            Request::Unknown => RequestView::Unknown,
        }
    }
}

/// The kind of channel that the server wants to open.
pub enum OpenKind<'a> {
    /// A connection to a forwarded port.
    ForwardedTcpip {
        address: &'a [u8],
        port: u32,
        originator_address: &'a [u8],
        originator_port: u32,
    },
    /// A kind that a client does not know.
    Unknown,
}

/// The mathematical counterpart of `OpenKind`.
pub enum OpenKindView {
    ForwardedTcpip {
        address: Seq<u8>,
        port: u32,
        originator_address: Seq<u8>,
        originator_port: u32,
    },
    Unknown,
}

impl<'a> View for OpenKind<'a> {
    type V = OpenKindView;

    open spec fn view(&self) -> OpenKindView {
        match self {
            OpenKind::ForwardedTcpip { address, port, originator_address, originator_port } => {
                OpenKindView::ForwardedTcpip {
                    address: address@,
                    port: *port,
                    originator_address: originator_address@,
                    originator_port: *originator_port,
                }
            },
            OpenKind::Unknown => OpenKindView::Unknown,
        }
    }
}

/// A packet of the server. `id` is the number by which this side knows the channel.
pub enum Packet<'a> {
    OpenConfirmation { id: u32, recipient_channel: u32, window: u32, max_packet: u32 },
    Close { id: u32 },
    Eof { id: u32 },
    OpenFailure { id: u32, reason_code: u32, description: &'a str, language: &'a str },
    Data { id: u32, data: &'a [u8] },
    ExtendedData { id: u32, code: u32, data: &'a [u8] },
    Request { id: u32, request: Request<'a> },
    WindowAdjust { id: u32, amount: u32 },
    GlobalRequest,
    Success { id: u32 },
    /// The server wants to open a channel; `sender_channel` is its own number for it.
    Open { sender_channel: u32, window: u32, max_packet: u32, kind: OpenKind<'a> },
    /// A packet that a client does not know.
    Unknown,
}

/// The mathematical counterpart of `Packet`.
pub enum PacketView {
    OpenConfirmation { id: u32, recipient_channel: u32, window: u32, max_packet: u32 },
    Close { id: u32 },
    Eof { id: u32 },
    OpenFailure { id: u32, reason_code: u32, description: Seq<char>, language: Seq<char> },
    Data { id: u32, data: Seq<u8> },
    ExtendedData { id: u32, code: u32, data: Seq<u8> },
    Request { id: u32, request: RequestView },
    WindowAdjust { id: u32, amount: u32 },
    GlobalRequest,
    Success { id: u32 },
    Open { sender_channel: u32, window: u32, max_packet: u32, kind: OpenKindView },
    Unknown,
}

impl<'a> View for Packet<'a> {
    type V = PacketView;

    open spec fn view(&self) -> PacketView {
        match self {
            Packet::OpenConfirmation { id, recipient_channel, window, max_packet } => {
                PacketView::OpenConfirmation {
                    id: *id,
                    recipient_channel: *recipient_channel,
                    window: *window,
                    max_packet: *max_packet,
                }
            },
            Packet::Close { id } => PacketView::Close { id: *id },
            Packet::Eof { id } => PacketView::Eof { id: *id },
            Packet::OpenFailure { id, reason_code, description, language } => {
                PacketView::OpenFailure {
                    id: *id,
                    reason_code: *reason_code,
                    description: description@,
                    language: language@,
                }
            },
            Packet::Data { id, data } => PacketView::Data { id: *id, data: data@ },
            Packet::ExtendedData { id, code, data } => PacketView::ExtendedData {
                id: *id,
                code: *code,
                data: data@,
            },
            Packet::Request { id, request } => PacketView::Request { id: *id, request: request@ },
            Packet::WindowAdjust { id, amount } => PacketView::WindowAdjust {
                id: *id,
                amount: *amount,
            },
            Packet::GlobalRequest => PacketView::GlobalRequest,
            Packet::Success { id } => PacketView::Success { id: *id },
            Packet::Open { sender_channel, window, max_packet, kind } => PacketView::Open {
                sender_channel: *sender_channel,
                window: *window,
                max_packet: *max_packet,
                kind: kind@,
            },
            Packet::Unknown => PacketView::Unknown,
        }
    }
}

/// The text in the string at position `i`.
pub open spec fn text_at(b: Seq<u8>, i: int) -> Result<Seq<char>, Error> {
    match string_at(b, i) {
        Some(s) => text_of(s),
        None => Err(Error::IndexOutOfBounds),
    }
}

/// The position behind the string at position `i`.
pub open spec fn past(b: Seq<u8>, i: int) -> int {
    i + 4 + string_at(b, i)->Some_0.len()
}

/// A text, a number, a text, a number: the fields of a forwarded connection.
pub open spec fn forwarded_fields(b: Seq<u8>, i: int) -> Result<RequestView, Error> {
    let j = past(b, i);
    let k = past(b, j + 4);
    match text_at(b, i) {
        Err(e) => Err(e),
        Ok(connected_address) => match u32_at(b, j) {
            None => Err(Error::IndexOutOfBounds),
            Some(connected_port) => match text_at(b, j + 4) {
                Err(e) => Err(e),
                Ok(originator_address) => match u32_at(b, k) {
                    None => Err(Error::IndexOutOfBounds),
                    Some(originator_port) => Ok(
                        RequestView::ForwardedTcpip {
                            connected_address,
                            connected_port,
                            originator_address,
                            originator_port,
                        },
                    ),
                },
            },
        },
    }
}

/// A byte without meaning, a signal, a flag, two texts: the fields of an exit by a signal.
pub open spec fn exit_signal_fields(b: Seq<u8>, i: int) -> Result<RequestView, Error> {
    let j = past(b, i + 1);
    let k = past(b, j + 1);
    match string_at(b, i + 1) {
        None => Err(Error::IndexOutOfBounds),
        Some(name) => match sig_named(name) {
            Err(e) => Err(e),
            Ok(signal) => match byte_at(b, j) {
                None => Err(Error::IndexOutOfBounds),
                Some(core_dumped) => match text_at(b, j + 1) {
                    Err(e) => Err(e),
                    Ok(error_message) => match text_at(b, k) {
                        Err(e) => Err(e),
                        Ok(lang_tag) => Ok(
                            RequestView::ExitSignal {
                                signal,
                                core_dumped: core_dumped != 0,
                                error_message,
                                lang_tag,
                            },
                        ),
                    },
                },
            },
        },
    }
}

/// The request of that name, its fields from position `i` on.
pub open spec fn request_at(b: Seq<u8>, i: int, name: Seq<u8>) -> Result<RequestView, Error> {
    if name == "forwarded_tcpip".spec_bytes() {
        forwarded_fields(b, i)
    } else if name == "xon-xoff".spec_bytes() {
        match byte_at(b, i + 1) {
            Some(can) => Ok(RequestView::XonXoff { client_can_do: can != 0 }),
            None => Err(Error::IndexOutOfBounds),
        }
    } else if name == "exit-status".spec_bytes() {
        match u32_at(b, i + 1) {
            Some(exit_status) => Ok(RequestView::ExitStatus { exit_status }),
            None => Err(Error::IndexOutOfBounds),
        }
    } else if name == "exit-signal".spec_bytes() {
        exit_signal_fields(b, i)
    } else {
        Ok(RequestView::Unknown)
    }
}

/// The kind of channel of that name, its fields from position `i` on.
pub open spec fn open_kind_at(b: Seq<u8>, i: int, name: Seq<u8>) -> Result<OpenKindView, Error> {
    if name == "forwarded-tcpip".spec_bytes() {
        let j = past(b, i);
        let k = past(b, j + 4);
        match (string_at(b, i), u32_at(b, j), string_at(b, j + 4), u32_at(b, k)) {
            (
                Some(address),
                Some(port),
                Some(originator_address),
                Some(originator_port),
            ) => Ok(
                OpenKindView::ForwardedTcpip {
                    address,
                    port,
                    originator_address,
                    originator_port,
                },
            ),
            _ => Err(Error::IndexOutOfBounds),
        }
    } else {
        Ok(OpenKindView::Unknown)
    }
}

/// What a packet of the server says.
pub open spec fn parse(b: Seq<u8>) -> Result<PacketView, Error> {
    let short = Err(Error::IndexOutOfBounds);
    if b[0] == msg::CHANNEL_OPEN_CONFIRMATION {
        match (u32_at(b, 1), u32_at(b, 5), u32_at(b, 9), u32_at(b, 13)) {
            (Some(id), Some(recipient_channel), Some(window), Some(max_packet)) => Ok(
                PacketView::OpenConfirmation { id, recipient_channel, window, max_packet },
            ),
            _ => short,
        }
    } else if b[0] == msg::CHANNEL_CLOSE {
        match u32_at(b, 1) {
            Some(id) => Ok(PacketView::Close { id }),
            None => short,
        }
    } else if b[0] == msg::CHANNEL_EOF {
        match u32_at(b, 1) {
            Some(id) => Ok(PacketView::Eof { id }),
            None => short,
        }
    } else if b[0] == msg::CHANNEL_OPEN_FAILURE {
        match (u32_at(b, 1), u32_at(b, 5)) {
            (Some(id), Some(reason_code)) => match text_at(b, 9) {
                Err(e) => Err(e),
                Ok(description) => match text_at(b, past(b, 9)) {
                    Err(e) => Err(e),
                    Ok(language) => Ok(
                        PacketView::OpenFailure { id, reason_code, description, language },
                    ),
                },
            },
            _ => short,
        }
    } else if b[0] == msg::CHANNEL_DATA {
        match (u32_at(b, 1), string_at(b, 5)) {
            (Some(id), Some(data)) => Ok(PacketView::Data { id, data }),
            _ => short,
        }
    } else if b[0] == msg::CHANNEL_EXTENDED_DATA {
        match (u32_at(b, 1), u32_at(b, 5), string_at(b, 9)) {
            (Some(id), Some(code), Some(data)) => Ok(PacketView::ExtendedData { id, code, data }),
            _ => short,
        }
    } else if b[0] == msg::CHANNEL_REQUEST {
        match (u32_at(b, 1), string_at(b, 5)) {
            (Some(id), Some(name)) => match request_at(b, past(b, 5), name) {
                Ok(request) => Ok(PacketView::Request { id, request }),
                Err(e) => Err(e),
            },
            _ => short,
        }
    } else if b[0] == msg::CHANNEL_WINDOW_ADJUST {
        match (u32_at(b, 1), u32_at(b, 5)) {
            (Some(id), Some(amount)) => Ok(PacketView::WindowAdjust { id, amount }),
            _ => short,
        }
    } else if b[0] == msg::GLOBAL_REQUEST {
        match string_at(b, 1) {
            Some(name) => Ok(PacketView::GlobalRequest),
            None => short,
        }
    } else if b[0] == msg::CHANNEL_SUCCESS {
        match u32_at(b, 1) {
            Some(id) => Ok(PacketView::Success { id }),
            None => short,
        }
    } else if b[0] == msg::CHANNEL_OPEN {
        let i = past(b, 1);
        match (string_at(b, 1), u32_at(b, i), u32_at(b, i + 4), u32_at(b, i + 8)) {
            (Some(name), Some(sender_channel), Some(window), Some(max_packet)) => {
                match open_kind_at(b, i + 12, name) {
                    Ok(kind) => Ok(PacketView::Open { sender_channel, window, max_packet, kind }),
                    Err(e) => Err(e),
                }
            },
            _ => short,
        }
    } else {
        Ok(PacketView::Unknown)
    }
}

/// Reads the request of that name.
fn read_request<'a>(r: &mut Position<'a>, name: &[u8]) -> (q: Result<Request<'a>, Error>)
    requires
        old(r).inv(),
    ensures
        match q {
            Ok(q) => request_at(old(r).s@, old(r).position as int, name@) == Ok::<
                RequestView,
                Error,
            >(q@),
            Err(e) => request_at(old(r).s@, old(r).position as int, name@) == Err::<
                RequestView,
                Error,
            >(e),
        },
{
    if same_bytes(name, "forwarded_tcpip".as_bytes()) {
        let connected_address = text(r.read_string()?)?;
        let connected_port: u32 = r.read_u32()?;
        let originator_address = text(r.read_string()?)?;
        let originator_port: u32 = r.read_u32()?;
        Ok(
            Request::ForwardedTcpip {
                connected_address,
                connected_port,
                originator_address,
                originator_port,
            },
        )
    } else if same_bytes(name, "xon-xoff".as_bytes()) {
        r.read_byte()?;
        let can: u8 = r.read_byte()?;
        Ok(Request::XonXoff { client_can_do: can != 0 })
    } else if same_bytes(name, "exit-status".as_bytes()) {
        r.read_byte()?;
        let exit_status: u32 = r.read_u32()?;
        Ok(Request::ExitStatus { exit_status })
    } else if same_bytes(name, "exit-signal".as_bytes()) {
        r.read_byte()?;
        let signal = Sig::from_name(r.read_string()?)?;
        let core_dumped: u8 = r.read_byte()?;
        let error_message = text(r.read_string()?)?;
        let lang_tag = text(r.read_string()?)?;
        Ok(
            Request::ExitSignal {
                signal,
                core_dumped: core_dumped != 0,
                error_message,
                lang_tag,
            },
        )
    } else {
        Ok(Request::Unknown)
    }
}

/// Reads the kind of channel of that name.
fn read_open_kind<'a>(r: &mut Position<'a>, name: &[u8]) -> (k: Result<OpenKind<'a>, Error>)
    requires
        old(r).inv(),
    ensures
        match k {
            Ok(k) => open_kind_at(old(r).s@, old(r).position as int, name@) == Ok::<
                OpenKindView,
                Error,
            >(k@),
            Err(e) => open_kind_at(old(r).s@, old(r).position as int, name@) == Err::<
                OpenKindView,
                Error,
            >(e),
        },
{
    if same_bytes(name, "forwarded-tcpip".as_bytes()) {
        let address = r.read_string()?;
        let port: u32 = r.read_u32()?;
        let originator_address = r.read_string()?;
        let originator_port: u32 = r.read_u32()?;
        Ok(OpenKind::ForwardedTcpip { address, port, originator_address, originator_port })
    } else {
        Ok(OpenKind::Unknown)
    }
}

impl<'a> Packet<'a> {
    /// Reads a packet of the server.
    pub fn read(buf: &'a [u8]) -> (r: Result<Packet<'a>, Error>)
        requires
            buf@.len() > 0,
        ensures
            match r {
                Ok(p) => parse(buf@) == Ok::<PacketView, Error>(p@),
                Err(e) => parse(buf@) == Err::<PacketView, Error>(e),
            },
    {
        let kind: u8 = buf[0];
        let mut r = reader(buf, 1);
        if kind == msg::CHANNEL_OPEN_CONFIRMATION {
            let id: u32 = r.read_u32()?;
            let recipient_channel: u32 = r.read_u32()?;
            let window: u32 = r.read_u32()?;
            let max_packet: u32 = r.read_u32()?;
            Ok(Packet::OpenConfirmation { id, recipient_channel, window, max_packet })
        } else if kind == msg::CHANNEL_CLOSE {
            let id: u32 = r.read_u32()?;
            Ok(Packet::Close { id })
        } else if kind == msg::CHANNEL_EOF {
            let id: u32 = r.read_u32()?;
            Ok(Packet::Eof { id })
        } else if kind == msg::CHANNEL_OPEN_FAILURE {
            let id: u32 = r.read_u32()?;
            let reason_code: u32 = r.read_u32()?;
            let description = text(r.read_string()?)?;
            let language = text(r.read_string()?)?;
            Ok(Packet::OpenFailure { id, reason_code, description, language })
        } else if kind == msg::CHANNEL_DATA {
            let id: u32 = r.read_u32()?;
            let data = r.read_string()?;
            Ok(Packet::Data { id, data })
        } else if kind == msg::CHANNEL_EXTENDED_DATA {
            let id: u32 = r.read_u32()?;
            let code: u32 = r.read_u32()?;
            let data = r.read_string()?;
            Ok(Packet::ExtendedData { id, code, data })
        } else if kind == msg::CHANNEL_REQUEST {
            let id: u32 = r.read_u32()?;
            let name = r.read_string()?;
            let request = read_request(&mut r, name)?;
            Ok(Packet::Request { id, request })
        } else if kind == msg::CHANNEL_WINDOW_ADJUST {
            let id: u32 = r.read_u32()?;
            let amount: u32 = r.read_u32()?;
            Ok(Packet::WindowAdjust { id, amount })
        } else if kind == msg::GLOBAL_REQUEST {
            r.read_string()?;
            Ok(Packet::GlobalRequest)
        } else if kind == msg::CHANNEL_SUCCESS {
            let id: u32 = r.read_u32()?;
            Ok(Packet::Success { id })
        } else if kind == msg::CHANNEL_OPEN {
            let name = r.read_string()?;
            let sender_channel: u32 = r.read_u32()?;
            let window: u32 = r.read_u32()?;
            let max_packet: u32 = r.read_u32()?;
            let kind = read_open_kind(&mut r, name)?;
            Ok(Packet::Open { sender_channel, window, max_packet, kind })
        } else {
            Ok(Packet::Unknown)
        }
    }
}

} // verus!
