use cryptovec::CryptoVec;
use std::collections::{HashMap, VecDeque};
use thrussh_client::address::read_ip;
use thrussh_client::auth::{AuthRequest, CurrentRequest, Method, MethodSet, PublicKey};
use thrussh_client::buffer::buffer_of;
use thrussh_client::client::channel::{OpenChannelMsg, Polled};
use thrussh_client::client::tunnel::comes_with_receiver;
use thrussh_client::client::{Callback, ForwardTable, Session, Step};
use thrussh_client::encoding::extend_ssh_string;
use thrussh_client::error::Error;
use thrussh_client::names::{ChannelOpenFailure, Sig};
use thrussh_client::session::{
    ChannelId, ChannelParameters, CommonSession, Config, Encrypted, EncryptedState, IpAddr, Kex,
    SSHBuffer, SocketAddr, Transport,
};

struct Wire;

impl Transport for Wire {
    type Init = &'static str;
    type DhDone = &'static str;
    type Exchange = &'static str;
    type Cipher = &'static str;
    type KeyPair = &'static str;
    type Sender = &'static str;
    type Receiver = &'static str;
}

fn session(state: EncryptedState) -> Session<Wire> {
    Session {
        common: CommonSession {
            auth_user: "jason".to_string(),
            config: Config { window_size: 1000, maximum_packet_size: 200 },
            encrypted: Some(Encrypted {
                state,
                exchange: None,
                session_id: vec![1, 2, 3],
                rekey: None,
                channels: HashMap::new(),
                last_channel_id: 1,
                write: CryptoVec::new(),
            }),
            auth_method: None,
            write_buffer: SSHBuffer { buffer: CryptoVec::new(), bytes: 77 },
            cipher: "old",
            buffer: CryptoVec::new(),
        },
        channels: HashMap::new(),
        remote_forward_channels: ForwardTable::new(),
        target_window_size: 1000,
    }
}

fn enc(s: &mut Session<Wire>) -> &mut Encrypted<Wire> {
    s.common.encrypted.as_mut().unwrap()
}

fn written(s: &Session<Wire>) -> Vec<u8> {
    s.common.encrypted.as_ref().unwrap().write.to_vec()
}

fn parameters(recipient_channel: u32, id: u32) -> ChannelParameters {
    ChannelParameters {
        recipient_channel,
        sender_channel: ChannelId(id),
        recipient_window_size: 10,
        sender_window_size: 1000,
        recipient_maximum_packet_size: 20,
        sender_maximum_packet_size: 200,
        confirmed: false,
        wants_reply: false,
        pending_data: VecDeque::new(),
    }
}

fn authenticated() -> Session<Wire> {
    let mut s = session(EncryptedState::Authenticated);
    enc(&mut s).channels.insert(5, parameters(50, 5));
    s
}

fn authenticating() -> Session<Wire> {
    session(EncryptedState::WaitingAuthRequest(AuthRequest {
        methods: MethodSet::all(),
        partial_success: false,
        current: None,
        rejection_count: 0,
    }))
}

fn key() -> PublicKey {
    PublicKey { name: "ssh-ed25519".to_string(), blob: b"blob".to_vec() }
}

/// A message: its number, then the integers, then the strings.
fn message(kind: u8, numbers: &[u32], strings: &[&[u8]]) -> Vec<u8> {
    let mut b = CryptoVec::new();
    b.push(kind);
    for n in numbers {
        b.push_u32_be(*n);
    }
    for s in strings {
        extend_ssh_string(&mut b, s);
    }
    b.to_vec()
}

fn read<'a>(s: Session<Wire>, b: &'a [u8]) -> Result<(Session<Wire>, Step<'a, Wire>), Error> {
    assert!(s.accepts(b));
    assert!(s.fits());
    s.client_read_encrypted(b)
}

fn error_of(s: Session<Wire>, b: &[u8]) -> Error {
    match read(s, b) {
        Ok(_) => panic!("no error"),
        Err(e) => e,
    }
}

fn ok<'a>(s: Session<Wire>, b: &'a [u8]) -> (Session<Wire>, Step<'a, Wire>) {
    read(s, b).unwrap_or_else(|e| panic!("{:?}", e))
}

const PROBE: &[u8] = b"\x32\0\0\0\x05jason\0\0\0\x0essh-connection\0\0\0\x09publickey\0\
    \0\0\0\x0bssh-ed25519\0\0\0\x04blob";

const REQUEST: &[u8] = b"\x32\0\0\0\x05jason\0\0\0\x0essh-connection\0\0\0\x09publickey\x01\
    \0\0\0\x0bssh-ed25519\0\0\0\x04blob";

/// A packet or a string with its length in front.
fn framed(body: &[u8]) -> Vec<u8> {
    let mut b = CryptoVec::new();
    extend_ssh_string(&mut b, body);
    b.to_vec()
}

#[test]
fn confirmations_carry_the_settings() {
    let mut s = authenticated();
    assert!(s.has_room(21));
    s.confirm_channel_open(7, 3);
    assert_eq!(
        written(&s),
        b"\0\0\0\x11\x5b\0\0\0\x07\0\0\0\x03\0\0\x03\xe8\0\0\0\xc8"
    );
    let mut s = authenticated();
    s.common.encrypted = None;
    s.confirm_channel_open(7, 3);
    assert!(s.common.encrypted.is_none());
}

#[test]
fn confirmations_are_read_back() {
    let mut s = authenticated();
    s.confirm_channel_open(5, 50);
    let sent = written(&s);
    let (mut t, step) = ok(authenticated(), &sent[4..]);
    match step {
        Step::Call(Callback::OpenConfirmation { id, max_packet, window }) => {
            assert_eq!(id, ChannelId(5));
            assert_eq!((max_packet, window), (200, 1000));
        }
        _ => panic!("another step"),
    }
    let p = &enc(&mut t).channels[&5];
    assert!(p.confirmed);
    assert_eq!(p.recipient_channel, 50);
    assert_eq!((p.recipient_window_size, p.recipient_maximum_packet_size), (1000, 200));
}

#[test]
fn unknown_confirmations_end_the_session() {
    assert_eq!(
        error_of(authenticated(), &message(91, &[6, 1, 1, 1], &[])),
        Error::Inconsistent
    );
    assert_eq!(error_of(authenticated(), &message(91, &[5, 1, 1], &[])), Error::IndexOutOfBounds);
}

#[test]
fn closed_channels_are_forgotten() {
    let close = message(97, &[5], &[]);
    let (mut s, step) = ok(authenticated(), &close);
    assert!(matches!(step, Step::Call(Callback::Close { id: ChannelId(5) })));
    assert!(enc(&mut s).channels.is_empty());
    let (mut s, step) = ok(s, &close);
    assert!(matches!(step, Step::Call(Callback::Close { id: ChannelId(5) })));
    assert!(enc(&mut s).channels.is_empty());
}

#[test]
fn the_end_of_a_channel_is_told() {
    let b = message(96, &[5], &[]);
    let (mut s, step) = ok(authenticated(), &b);
    assert!(matches!(step, Step::Call(Callback::Eof { id: ChannelId(5) })));
    assert!(enc(&mut s).channels.contains_key(&5));
    let b = message(99, &[5], &[]);
    let (_, step) = ok(s, &b);
    assert!(matches!(step, Step::Call(Callback::Success { id: ChannelId(5) })));
}

#[test]
fn refused_channels_are_forgotten() {
    let b = message(92, &[5, 2], &[b"no route", b"en"]);
    let (mut s, step) = ok(authenticated(), &b);
    match step {
        Step::Call(Callback::OpenFailure { id, reason, description, language }) => {
            assert_eq!(id, ChannelId(5));
            assert_eq!(reason, ChannelOpenFailure::ConnectFailed);
            assert_eq!((description, language), ("no route", "en"));
        }
        _ => panic!("another step"),
    }
    assert!(enc(&mut s).channels.is_empty());
    assert!(!authenticated().accepts(&message(92, &[5, 9], &[b"", b""])));
    let b = message(92, &[5, 1], &[&[0xff], b"en"]);
    assert_eq!(error_of(authenticated(), &b), Error::Utf8);
}

#[test]
fn data_is_taken_off_the_window() {
    let b = message(94, &[5], &[&[7; 400]]);
    let (mut s, step) = ok(authenticated(), &b);
    match step {
        Step::Call(Callback::Data { id, data, window_adjusted }) => {
            assert_eq!(id, ChannelId(5));
            assert_eq!(data, &[7; 400]);
            assert!(!window_adjusted);
        }
        _ => panic!("another step"),
    }
    assert_eq!(enc(&mut s).channels[&5].sender_window_size, 600);
    assert_eq!(written(&s), b"");

    let (mut s, step) = ok(s, &b);
    assert!(matches!(
        step,
        Step::Call(Callback::Data { window_adjusted: true, .. })
    ));
    assert_eq!(enc(&mut s).channels[&5].sender_window_size, 1000);
    assert_eq!(written(&s), b"\0\0\0\x09\x5d\0\0\0\x32\0\0\x03\x20");
}

#[test]
fn window_adjustments_are_read_back() {
    let mut s = authenticated();
    assert!(enc(&mut s).adjust_window_size(ChannelId(5), &[0; 900], 1000));
    let sent = written(&s);
    let mut t = authenticated();
    enc(&mut t).channels.insert(50, parameters(5, 50));
    let (mut t, step) = ok(t, &sent[4..]);
    assert!(matches!(
        step,
        Step::Call(Callback::WindowAdjusted { id: ChannelId(50), new_size: 910 })
    ));
    assert_eq!(enc(&mut t).channels[&50].recipient_window_size, 910);
}

#[test]
fn data_beyond_the_window_is_not_counted() {
    let mut s = authenticated();
    enc(&mut s).channels.get_mut(&5).unwrap().sender_window_size = 700;
    assert!(!enc(&mut s).adjust_window_size(ChannelId(5), &[0; 701], 1000));
    assert_eq!(enc(&mut s).channels[&5].sender_window_size, 700);
    assert!(!enc(&mut s).adjust_window_size(ChannelId(6), &[0; 701], 1000));
}

#[test]
fn data_for_an_unknown_channel_is_passed_on() {
    let b = message(95, &[8, 1], &[b"oops"]);
    let (s, step) = ok(authenticated(), &b);
    match step {
        Step::Call(Callback::ExtendedData { id, code, data, window_adjusted }) => {
            assert_eq!(id, ChannelId(8));
            assert_eq!(code, 1);
            assert_eq!(data, b"oops");
            assert!(!window_adjusted);
        }
        _ => panic!("another step"),
    }
    assert_eq!(written(&s), b"");
}

#[test]
fn a_window_target_of_zero_is_no_target() {
    let mut s = authenticated();
    s.window_target_chosen(0);
    assert_eq!(s.target_window_size, 1000);
    s.window_target_chosen(5);
    assert_eq!(s.target_window_size, 5);
}

#[test]
fn windows_are_opened_by_the_server() {
    let b = message(93, &[5, 90], &[]);
    let (mut s, step) = ok(authenticated(), &b);
    assert!(matches!(
        step,
        Step::Call(Callback::WindowAdjusted { id: ChannelId(5), new_size: 100 })
    ));
    assert_eq!(enc(&mut s).channels[&5].recipient_window_size, 100);
    assert_eq!(error_of(s, &message(93, &[6, 90], &[])), Error::WrongChannel);
    assert!(!authenticated().accepts(&message(93, &[5, 0xffff_fff6], &[])));
    assert!(authenticated().accepts(&message(93, &[5, 0xffff_fff5], &[])));
}

#[test]
fn requests_are_told() {
    let mut b = message(98, &[5], &[b"xon-xoff"]);
    b.extend_from_slice(&[0, 1]);
    let (s, step) = ok(authenticated(), &b);
    assert!(matches!(
        step,
        Step::Call(Callback::XonXoff { id: ChannelId(5), client_can_do: true })
    ));

    let mut b = message(98, &[5], &[b"exit-status"]);
    b.extend_from_slice(&[0, 0, 0, 0, 9]);
    let (s, step) = ok(s, &b);
    assert!(matches!(
        step,
        Step::Call(Callback::ExitStatus { id: ChannelId(5), exit_status: 9 })
    ));

    let mut b = message(98, &[5], &[b"exit-signal"]);
    b.push(0);
    b.extend(framed(b"HUP"));
    b.push(0);
    b.extend(framed(b"bye"));
    b.extend(framed(b""));
    let (s, step) = ok(s, &b);
    match step {
        Step::Call(Callback::ExitSignal { id, signal, core_dumped, error_message, lang_tag }) => {
            assert_eq!(id, ChannelId(5));
            assert!(matches!(signal, Sig::HUP));
            assert!(!core_dumped);
            assert_eq!((error_message, lang_tag), ("bye", ""));
        }
        _ => panic!("another step"),
    }

    let mut b = message(98, &[5], &[b"forwarded_tcpip", b"127.0.0.1"]);
    b.extend_from_slice(&[0, 0, 0, 80]);
    b.extend(framed(b"10.0.0.1"));
    b.extend_from_slice(&[0, 0, 0, 81]);
    let (s, step) = ok(s, &b);
    match step {
        Step::Call(Callback::OpenForwardedTcpip {
            id,
            connected_address,
            connected_port,
            originator_address,
            originator_port,
        }) => {
            assert_eq!(id, ChannelId(5));
            assert_eq!((connected_address, connected_port), ("127.0.0.1", 80));
            assert_eq!((originator_address, originator_port), ("10.0.0.1", 81));
        }
        _ => panic!("another step"),
    }

    let b = message(98, &[5], &[b"keepalive"]);
    let (_, step) = ok(s, &b);
    assert!(matches!(step, Step::Done));
}

#[test]
fn unknown_kinds_of_channel_are_refused() {
    let mut b = message(90, &[], &[b"x11"]);
    b.extend_from_slice(&[0, 0, 0, 8, 0, 0, 0, 1, 0, 0, 0, 1]);
    let (s, step) = ok(authenticated(), &b);
    assert!(matches!(step, Step::Done));
    assert_eq!(
        written(&s),
        b"\0\0\0\x27\x5c\0\0\0\x08\0\0\0\x03\0\0\0\x14Unknown channel type\0\0\0\x02en"
    );
    let sent = written(&s);
    let (_, step) = ok(authenticated(), &sent[4..]);
    match step {
        Step::Call(Callback::OpenFailure { id, reason, description, language }) => {
            assert_eq!(id, ChannelId(8));
            assert_eq!(reason, ChannelOpenFailure::UnknownChannelType);
            assert_eq!((description, language), ("Unknown channel type", "en"));
        }
        _ => panic!("another step"),
    }
}

#[test]
fn forwarded_connections_reach_their_listener() {
    let mut b = message(90, &[], &[b"forwarded-tcpip"]);
    b.extend_from_slice(&[0, 0, 0, 8, 0, 0, 0, 100, 0, 0, 0, 50]);
    b.extend(framed(b"127.0.0.1"));
    b.extend_from_slice(&[0, 1, 0x1f, 0x90]);
    b.extend(framed(b"10.0.0.1"));
    b.extend_from_slice(&[0, 0, 0, 81]);
    let mut s = authenticated();
    enc(&mut s).channels.insert(2, parameters(20, 2));
    s.channels.insert(5, "listener");
    let ip = IpAddr::V4(0x7f00_0001);
    s.remote_forward_channels.insert(SocketAddr { ip, port: 8080 }, ChannelId(5));
    let (mut s, step) = ok(s, &b);
    let (port, sender_channel, window, max_packet) = match step {
        Step::ForwardedTcpip { ip: read, port, sender_channel, window, max_packet } => {
            assert_eq!(read, ip);
            (port, sender_channel, window, max_packet)
        }
        _ => panic!("another step"),
    };
    assert_eq!((port, sender_channel, window, max_packet), (0x11f90, 8, 100, 50));
    assert!(s.can_forward(ip, port));
    let delivery = s
        .forwarded_tcpip_open(ip, port, sender_channel, window, max_packet, "tx", "rx")
        .unwrap()
        .unwrap();
    assert_eq!(delivery.listener, "listener");
    match &delivery.msg {
        OpenChannelMsg::Open { id, max_packet_size, window_size, receiver } => {
            assert_eq!(*id, ChannelId(3));
            assert_eq!((*max_packet_size, *window_size), (50, 100));
            assert_eq!(*receiver, Some("rx"));
        }
        _ => panic!("another message"),
    }
    assert!(comes_with_receiver(&Polled::Ready(Some(delivery.msg))));
    assert_eq!(s.channels[&3], "tx");
    assert_eq!(enc(&mut s).channels.len(), 3);
    assert_eq!(enc(&mut s).last_channel_id, 3);
    let p = &enc(&mut s).channels[&3];
    assert_eq!(p.recipient_channel, 8);
    assert_eq!(p.sender_channel, ChannelId(3));
    assert_eq!((p.recipient_window_size, p.sender_window_size), (100, 1000));
    assert_eq!((p.recipient_maximum_packet_size, p.sender_maximum_packet_size), (50, 200));
    assert!(p.confirmed && !p.wants_reply && p.pending_data.is_empty());
    assert_eq!(
        written(&s),
        b"\0\0\0\x11\x5b\0\0\0\x08\0\0\0\x03\0\0\x03\xe8\0\0\0\xc8"
    );
}

/// A connection to `address` and port 80 that the server passes on.
fn connection(address: &[u8]) -> Vec<u8> {
    let mut b = message(90, &[], &[b"forwarded-tcpip"]);
    b.extend_from_slice(&[0, 0, 0, 8, 0, 0, 0, 100, 0, 0, 0, 50]);
    b.extend(framed(address));
    b.extend_from_slice(&[0, 0, 0, 80]);
    b.extend(framed(b""));
    b.extend_from_slice(&[0, 0, 0, 0]);
    b
}

#[test]
fn addresses_are_read_from_texts() {
    assert_eq!(read_ip(b"10.1.2.3"), Some(IpAddr::V4(0x0a01_0203)));
    assert_eq!(read_ip(b"::1"), Some(IpAddr::V6(1)));
    assert_eq!(read_ip(b"fe80::2"), Some(IpAddr::V6((0xfe80 << 112) | 2)));
    assert_eq!(read_ip(b"localhost"), None);
    assert_eq!(read_ip(b"10.1.2.3\xff"), None);
    assert_eq!(read_ip(b""), None);
}

#[test]
fn connections_to_other_texts_are_ignored() {
    let b = connection(b"localhost");
    let (s, step) = ok(authenticated(), &b);
    assert!(matches!(step, Step::Done));
    assert_eq!(written(&s), b"");
    let b = connection(b"::1");
    let (s, step) = ok(s, &b);
    assert!(matches!(
        step,
        Step::ForwardedTcpip {
            ip: IpAddr::V6(1),
            port: 80,
            sender_channel: 8,
            window: 100,
            max_packet: 50,
        }
    ));
    assert_eq!(written(&s), b"");
    assert!(matches!(
        Session::<Wire>::forwarded_tcpip_asked(None, 80, 8, 100, 50),
        Step::Done
    ));
    assert!(matches!(
        Session::<Wire>::forwarded_tcpip_asked(Some(IpAddr::V4(7)), 80, 8, 100, 50),
        Step::ForwardedTcpip { ip: IpAddr::V4(7), port: 80, sender_channel: 8, .. }
    ));
}

#[test]
fn connections_reach_no_other_listener() {
    let mut s = authenticated();
    s.channels.insert(5, "first");
    s.channels.insert(6, "second");
    let (a, b) = (IpAddr::V4(1), IpAddr::V4(2));
    s.remote_forward_channels.insert(SocketAddr { ip: a, port: 80 }, ChannelId(5));
    s.remote_forward_channels.insert(SocketAddr { ip: b, port: 80 }, ChannelId(6));
    let first = s.forwarded_tcpip_open(a, 80, 1, 1, 1, "tx", "rx").unwrap().unwrap();
    assert_eq!(first.listener, "first");
    let second = s.forwarded_tcpip_open(b, 80, 1, 1, 1, "tx", "rx").unwrap().unwrap();
    assert_eq!(second.listener, "second");
}

#[test]
fn connections_without_a_listener_are_dropped() {
    let ip = IpAddr::V4(1);
    let mut s = authenticated();
    s.remote_forward_channels.insert(SocketAddr { ip, port: 80 }, ChannelId(5));
    assert!(s.can_forward(ip, 80) && s.has_free_number());
    assert!(matches!(s.forwarded_tcpip_open(ip, 80, 1, 1, 1, "tx", "rx"), Ok(None)));
    s.channels.insert(5, "listener");
    assert!(matches!(s.forwarded_tcpip_open(ip, 81, 1, 1, 1, "tx", "rx"), Ok(None)));
    assert_eq!(written(&s), b"");
    s.common.encrypted = None;
    assert!(matches!(
        s.forwarded_tcpip_open(ip, 80, 1, 1, 1, "tx", "rx"),
        Err(Error::Inconsistent)
    ));
    assert_eq!(
        s.create_forwarded_tcpip_channel(1, "tx", "rx", 1, 1).err(),
        Some(Error::Inconsistent)
    );
}

#[test]
fn forwarded_addresses_have_one_listener() {
    let mut t = ForwardTable::new();
    let a = SocketAddr { ip: IpAddr::V6(1), port: 80 };
    let b = SocketAddr { ip: IpAddr::V6(1), port: 81 };
    assert_eq!(t.get(a), None);
    t.insert(a, ChannelId(1));
    t.insert(b, ChannelId(2));
    t.insert(a, ChannelId(3));
    assert_eq!(t.get(a), Some(ChannelId(3)));
    assert_eq!(t.get(b), Some(ChannelId(2)));
}

#[test]
fn channel_numbers_wrap_around() {
    let mut s = authenticated();
    enc(&mut s).last_channel_id = u32::MAX;
    enc(&mut s).channels.insert(0, parameters(1, 0));
    enc(&mut s).channels.insert(1, parameters(1, 1));
    assert_eq!(enc(&mut s).new_channel_id(), ChannelId(2));
    assert_eq!(enc(&mut s).new_channel_id(), ChannelId(3));
    assert_eq!(enc(&mut s).new_channel_id(), ChannelId(4));
    assert_eq!(enc(&mut s).new_channel_id(), ChannelId(6));
}

#[test]
fn the_service_is_asked_for_once() {
    let mut s = session(EncryptedState::WaitingServiceRequest { sent: false, accepted: false });
    let method = Method::Password { password: "secret".to_string() };
    assert!(s.can_choose("eve", &method) && s.has_room_for("eve", &method));
    assert!(!s.write_auth_request_if_needed("eve", method));
    assert_eq!(&s.common.write_buffer.buffer[..], b"\0\0\0\x11\x05\0\0\0\x0cssh-userauth");
    assert_eq!(written(&s), b"");
    assert_eq!(s.common.auth_user, "eve");
    let method = Method::Password { password: "other".to_string() };
    assert!(!s.write_auth_request_if_needed("jason", method));
    assert_eq!(s.common.write_buffer.buffer.len(), 21);
    assert_eq!(
        enc(&mut s).state,
        EncryptedState::WaitingServiceRequest { sent: true, accepted: false }
    );

    let (s, step) = ok(s, b"\x06\0\0\0\x0cssh-userauth");
    assert!(matches!(step, Step::Done));
    assert_eq!(
        written(&s),
        framed(
            b"\x32\0\0\0\x05jason\0\0\0\x0essh-connection\0\0\0\x08password\x01\0\0\0\x05other"
        )
    );
    match s.common.encrypted.unwrap().state {
        EncryptedState::WaitingAuthRequest(a) => {
            assert_eq!(a.methods, MethodSet::all());
            assert!(!a.partial_success && a.current.is_none());
            assert_eq!(a.rejection_count, 0);
        }
        _ => panic!("another state"),
    }
}

#[test]
fn a_method_may_come_after_the_service() {
    let waiting = EncryptedState::WaitingServiceRequest { sent: true, accepted: false };
    let (mut s, _) = ok(session(waiting), b"\x06\0\0\0\x0cssh-userauth");
    assert_eq!(
        enc(&mut s).state,
        EncryptedState::WaitingServiceRequest { sent: true, accepted: true }
    );
    assert!(s.write_auth_request_if_needed("jason", Method::FuturePublicKey { key: key() }));
    assert_eq!(written(&s), framed(PROBE));
    assert_eq!(s.common.write_buffer.buffer.len(), 0);
}

#[test]
fn other_services_are_ignored() {
    let waiting = EncryptedState::WaitingServiceRequest { sent: true, accepted: false };
    let (mut s, step) = ok(session(waiting), b"\x06\0\0\0\x03foo");
    assert!(matches!(step, Step::Done));
    assert_eq!(enc(&mut s).state, waiting);
    assert_eq!(error_of(session(waiting), &[6]), Error::IndexOutOfBounds);
    assert_eq!(error_of(session(waiting), &[94]), Error::Inconsistent);
}

#[test]
fn requests_are_sent_when_awaited() {
    let mut s = authenticating();
    let method = Method::PublicKey { key: key(), pair: "pair" };
    assert!(s.write_auth_request_if_needed("jason", method));
    assert_eq!(written(&s), framed(PROBE));
    let mut s = authenticated();
    assert!(!s.write_auth_request_if_needed("jason", Method::FuturePublicKey { key: key() }));
    assert_eq!(written(&s), b"");
}

#[test]
fn success_starts_the_compression() {
    let (mut s, step) = ok(authenticating(), &[52]);
    assert!(matches!(step, Step::AuthSuccess));
    assert_eq!(enc(&mut s).state, EncryptedState::InitCompression);
    assert!(!s.accepts(&[94]));
    assert!(s.accepts(&[20]));
}

#[test]
fn replies_need_a_receiver() {
    let (s, _) = ok(authenticating(), &[52]);
    assert_eq!(s.auth_success_reported(true), Ok(()));
    assert_eq!(s.auth_success_reported(false), Err(Error::SendError));
    assert_eq!(s.signature_requested(true), Ok(()));
    assert_eq!(s.signature_requested(false), Err(Error::SendError));
}

#[test]
fn users_are_fetched_for_named_requests() {
    let b = message(98, &[5], &[b"exit-status"]);
    assert!(authenticated().fetches_user(&b));
    assert_eq!(error_of(authenticated(), &b), Error::IndexOutOfBounds);
    assert!(!authenticated().fetches_user(&b[..b.len() - 1]));
    assert!(!authenticated().fetches_user(&[98, 0, 0]));
    assert!(!authenticated().fetches_user(&message(97, &[5], &[])));
    assert!(!authenticated().fetches_user(&[]));
    assert!(!authenticating().fetches_user(&b));
    let mut s = authenticated();
    s.rekey_parsed(false, "done");
    assert!(!s.fetches_user(&b));
    s.common.encrypted = None;
    assert!(!s.fetches_user(&b));
}

#[test]
fn banners_are_shown() {
    let (s, step) = ok(authenticating(), b"\x35\0\0\0\x02hi");
    assert!(matches!(step, Step::AuthBanner { banner: "hi" }));
    let (_, step) = ok(s, b"\x35\0\0\0\x01\xff");
    assert!(matches!(step, Step::Done));
    assert_eq!(error_of(authenticating(), b"\x35\0\0\0\x09hi"), Error::IndexOutOfBounds);
    assert_eq!(error_of(authenticating(), &[99]), Error::Inconsistent);
}

#[test]
fn failures_leave_the_listed_methods() {
    let mut s = authenticating();
    s.common.auth_method = Some(Method::Password { password: "x".to_string() });
    let b = message(51, &[], &[b"publickey,foo"]);
    let (mut s, step) = ok(s, &b);
    assert!(matches!(step, Step::AuthFailure));
    assert!(s.common.auth_method.is_none());
    match enc(&mut s).state {
        EncryptedState::WaitingAuthRequest(a) => {
            assert_eq!(a.methods, MethodSet::from_list(b"publickey"))
        }
        _ => panic!("another state"),
    }
    assert_eq!(s.auth_failure_reported(true), Ok(()));
    assert_eq!(s.auth_failure_reported(false), Err(Error::SendError));
    let b = message(51, &[], &[b"foo"]);
    let (s, _) = ok(s, &b);
    assert_eq!(s.auth_failure_reported(true), Err(Error::NoAuthMethod));
    assert_eq!(s.auth_failure_reported(false), Err(Error::SendError));
}

#[test]
fn accepted_keys_sign_the_request() {
    let mut s = authenticating();
    if let EncryptedState::WaitingAuthRequest(a) = &mut enc(&mut s).state {
        a.current = Some(CurrentRequest::PublicKey { sent_pk_ok: false });
    }
    s.common.auth_method = Some(Method::PublicKey { key: key(), pair: "pair" });
    s.common.buffer = buffer_of(b"left over");
    let (mut s, step) = ok(s, &[60]);
    let (data, offset) = match step {
        Step::Sign { pair, data, offset } => {
            assert_eq!(pair, "pair");
            (data, offset)
        }
        _ => panic!("another step"),
    };
    assert_eq!(offset, 7);
    assert_eq!(&data[..7], b"\0\0\0\x03\x01\x02\x03");
    assert_eq!(&data[7..], REQUEST);
    assert!(s.common.auth_method.is_none());
    assert_eq!(s.common.buffer.len(), 0);
    match enc(&mut s).state {
        EncryptedState::WaitingAuthRequest(a) => {
            assert_eq!(a.current, Some(CurrentRequest::PublicKey { sent_pk_ok: true }))
        }
        _ => panic!("another state"),
    }
    let mut signed = data;
    signed.extend(b"signature");
    assert!(s.has_room(4 + signed.len() - offset));
    s.signed(signed, offset);
    let mut body = REQUEST.to_vec();
    body.extend_from_slice(b"signature");
    assert_eq!(written(&s), framed(&body));

    let before = written(&s);
    let (s, step) = ok(s, &[60]);
    assert!(matches!(step, Step::Done));
    assert_eq!(written(&s), before);
}

#[test]
fn probe_and_request_differ_in_one_byte() {
    let differing: Vec<usize> =
        (0..PROBE.len()).filter(|i| PROBE[*i] != REQUEST[*i]).collect();
    assert_eq!(PROBE.len(), REQUEST.len());
    assert_eq!(differing.len(), 1);
    assert_eq!(differing[0], 36 + "jason".len());
    assert_eq!((PROBE[differing[0]], REQUEST[differing[0]]), (0, 1));
}

#[test]
fn owners_sign_on_demand() {
    let mut s = authenticating();
    s.common.auth_method = Some(Method::FuturePublicKey { key: key() });
    let (mut s, step) = ok(s, &[60]);
    let (data, offset) = match step {
        Step::RequestSignature { key, data, offset } => {
            assert_eq!(key.name, "ssh-ed25519");
            (data, offset)
        }
        _ => panic!("another step"),
    };
    assert_eq!(&data[offset..], REQUEST);
    let unsigned = data.len();
    s.signed_by_owner(buffer_of(&data), offset, unsigned);
    assert_eq!(written(&s), b"");
    assert_eq!(s.common.buffer.len(), unsigned);
    let mut signed = data;
    signed.extend(b"!");
    s.signed_by_owner(signed, offset, unsigned);
    let mut body = REQUEST.to_vec();
    body.push(b'!');
    assert_eq!(written(&s), framed(&body));
}

#[test]
fn passwords_are_not_signed() {
    let mut s = authenticating();
    s.common.auth_method = Some(Method::Password { password: "x".to_string() });
    s.common.buffer = buffer_of(b"kept");
    let (s, step) = ok(s, &[60]);
    assert!(matches!(step, Step::Done));
    assert!(s.common.auth_method.is_none());
    assert_eq!(&s.common.buffer[..], b"kept");
}

#[test]
fn a_rekey_of_this_side_goes_on() {
    let mut s = authenticated();
    enc(&mut s).rekey = Some(Kex::KexInit("init"));
    enc(&mut s).exchange = Some("exchange");
    let (mut s, step) = ok(s, &[20]);
    assert!(matches!(step, Step::ParseKexInit { kexinit: "init" }));
    assert!(enc(&mut s).rekey.is_none());
    assert_eq!(enc(&mut s).exchange, Some("exchange"));
    s.rekey_parsed(false, "done");
    match &enc(&mut s).rekey {
        Some(Kex::KexDhDone { ignore_guessed, state }) => {
            assert!(!ignore_guessed);
            assert_eq!(*state, "done");
        }
        _ => panic!("another phase"),
    }
}

#[test]
fn a_rekey_of_the_server_is_received() {
    let mut s = authenticated();
    enc(&mut s).exchange = Some("exchange");
    let (mut s, step) = ok(s, &[20]);
    assert!(matches!(step, Step::ReceiveRekey { exchange: "exchange" }));
    assert!(enc(&mut s).exchange.is_none());
    let (_, step) = ok(s, &[20]);
    assert!(matches!(step, Step::Done));
    let mut s = authenticated();
    s.common.encrypted = None;
    assert!(!s.accepts(&[20]));
    assert!(s.accepts(&[94]));
    assert!(!s.accepts(&[]));
    let (_, step) = ok(s, &[94]);
    assert!(matches!(step, Step::Done));
}

#[test]
fn a_key_exchange_leads_to_new_keys() {
    for own in [true, false].iter() {
        let mut s = authenticated();
        enc(&mut s).exchange = Some("known");
        if *own {
            enc(&mut s).rekey = Some(Kex::KexInit("init"));
        }
        let (mut s, step) = ok(s, &[20]);
        match step {
            Step::ParseKexInit { kexinit } => assert!(*own && kexinit == "init"),
            Step::ReceiveRekey { exchange } => assert!(!*own && exchange == "known"),
            _ => panic!("another step"),
        }
        s.rekey_parsed(false, "done");
        let (mut s, step) = ok(s, &[31]);
        assert!(matches!(step, Step::CheckServerKey { dh_done: "done" }));
        s.server_key_checked(Kex::NewKeys { exchange: "exchange", cipher: "new" });
        let (mut s, step) = ok(s, &[21]);
        assert!(matches!(step, Step::KeysInstalled));
        assert_eq!(s.common.cipher, "new");
        assert_eq!(s.common.write_buffer.bytes, 0);
        assert_eq!(&s.common.write_buffer.buffer[..], b"\0\0\0\x01\x15");
        assert_eq!(enc(&mut s).exchange, Some("exchange"));
        assert!(enc(&mut s).rekey.is_none());
        assert_eq!(enc(&mut s).state, EncryptedState::Authenticated);
        assert!(enc(&mut s).channels.contains_key(&5));
    }
}

#[test]
fn a_wrong_guess_is_skipped() {
    let mut s = authenticated();
    s.rekey_parsed(true, "done");
    let (s, step) = ok(s, &[31]);
    assert!(matches!(step, Step::Done));
    let (mut s, step) = ok(s, &[31]);
    assert!(matches!(step, Step::CheckServerKey { dh_done: "done" }));
    assert!(s.has_room_now(5));
    s.server_key_checked(Kex::NewKeys { exchange: "exchange", cipher: "new" });
    assert_eq!(&s.common.write_buffer.buffer[..], b"\0\0\0\x01\x15");
    let (mut s, step) = ok(s, &[21]);
    assert!(matches!(step, Step::KeysInstalled));
    assert_eq!(s.common.cipher, "new");
    assert_eq!(s.common.write_buffer.bytes, 0);
    assert_eq!(enc(&mut s).exchange, Some("exchange"));
    assert!(enc(&mut s).rekey.is_none());
}

#[test]
fn a_key_exchange_is_not_interrupted() {
    let mut s = authenticated();
    s.rekey_parsed(false, "done");
    assert_eq!(error_of(s, &message(97, &[5], &[])), Error::Inconsistent);
    let mut s = authenticated();
    enc(&mut s).rekey = Some(Kex::NewKeys { exchange: "exchange", cipher: "new" });
    assert_eq!(error_of(s, &message(97, &[5], &[])), Error::Kex);
}

#[test]
fn channels_need_authentication() {
    let mut s = authenticating();
    enc(&mut s).channels.insert(5, parameters(50, 5));
    assert_eq!(error_of(s, &message(97, &[5], &[])), Error::Inconsistent);
}

#[test]
fn packets_are_only_appended() {
    let mut s = authenticated();
    s.confirm_channel_open(1, 2);
    let before = written(&s);
    let b = message(94, &[5], &[&[7; 900]]);
    let (s, _) = ok(s, &b);
    let after = written(&s);
    assert_eq!(&after[..before.len()], &before[..]);
    assert_eq!(after.len(), before.len() + 13);
}

#[test]
fn other_packets_change_nothing() {
    let (s, step) = ok(authenticated(), &[150, 1, 2]);
    assert!(matches!(step, Step::Done));
    assert_eq!(written(&s), b"");
    let b = message(80, &[], &[b"hostkeys"]);
    let (s, step) = ok(s, &b);
    assert!(matches!(step, Step::Done));
    assert_eq!(written(&s), b"");
}
