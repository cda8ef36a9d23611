use cryptovec::CryptoVec;
use thrussh_client::buffer::buffer_of;
use thrussh_client::encoding::{extend_ssh_string, push_packet, reader, same_bytes};
use thrussh_client::error::{text, Error};
use thrussh_client::names::{ChannelOpenFailure, Sig};
use thrussh_client::packet::{OpenKind, Packet, Request};

#[test]
fn integers_are_big_endian() {
    let bytes = [9, 0x01, 0x02, 0x03, 0x04, 0xff];
    let mut r = reader(&bytes, 1);
    assert_eq!(r.read_u32(), Ok(0x0102_0304));
    assert_eq!(r.position, 5);
    assert_eq!(r.read_u32(), Err(Error::IndexOutOfBounds));
    assert_eq!(r.position, 5);
    assert_eq!(r.read_byte(), Ok(0xff));
    assert_eq!(r.read_byte(), Err(Error::IndexOutOfBounds));
}

#[test]
fn strings_carry_their_length() {
    let mut buffer = CryptoVec::new();
    extend_ssh_string(&mut buffer, b"xterm");
    extend_ssh_string(&mut buffer, b"");
    assert_eq!(&buffer[..], b"\0\0\0\x05xterm\0\0\0\0");
    let mut r = reader(&buffer, 0);
    assert_eq!(r.read_string(), Ok(&b"xterm"[..]));
    assert_eq!(r.read_string(), Ok(&b""[..]));
    assert_eq!(r.read_string(), Err(Error::IndexOutOfBounds));
}

#[test]
fn a_string_may_not_run_over_the_end() {
    let mut r = reader(b"\0\0\0\x05xter", 0);
    assert_eq!(r.read_string(), Err(Error::IndexOutOfBounds));
    let mut r = reader(b"\xff\xff\xff\xffx", 0);
    assert_eq!(r.read_string(), Err(Error::IndexOutOfBounds));
}

#[test]
fn packets_are_framed() {
    let mut buffer = buffer_of(b"\0\0\0\x01a");
    push_packet(&mut buffer, &buffer_of(&[5, 6, 7]));
    assert_eq!(&buffer[..], b"\0\0\0\x01a\0\0\0\x03\x05\x06\x07");
}

#[test]
fn frames_are_told_apart() {
    let mut buffer = CryptoVec::new();
    push_packet(&mut buffer, &buffer_of(b"first"));
    push_packet(&mut buffer, &buffer_of(b"second"));
    let mut r = reader(&buffer, 0);
    assert_eq!(r.read_string(), Ok(&b"first"[..]));
    assert_eq!(r.read_string(), Ok(&b"second"[..]));
    assert_eq!(r.position, buffer.len());
}

#[test]
fn bytes_are_compared() {
    assert!(same_bytes(b"abc", b"abc"));
    assert!(!same_bytes(b"abc", b"abd"));
    assert!(!same_bytes(b"abc", b"ab"));
    assert!(same_bytes(b"", b""));
}

#[test]
fn texts_are_utf8() {
    assert_eq!(text("h\u{e9}".as_bytes()), Ok("h\u{e9}"));
    assert_eq!(text(&[0xff, 0xfe]), Err(Error::Utf8));
}

#[test]
fn signals_have_names() {
    assert!(matches!(Sig::from_name(b"KILL"), Ok(Sig::KILL)));
    assert!(matches!(Sig::from_name(b"USR1"), Ok(Sig::USR1)));
    match Sig::from_name(b"WINCH") {
        Ok(Sig::Custom(s)) => assert_eq!(s, "WINCH"),
        _ => panic!("a signal of another name"),
    }
    assert!(matches!(Sig::from_name(&[0xff]), Err(Error::Utf8)));
}

#[test]
fn reasons_have_numbers() {
    assert_eq!(
        ChannelOpenFailure::from_u32(1),
        Some(ChannelOpenFailure::AdministrativelyProhibited)
    );
    assert_eq!(ChannelOpenFailure::from_u32(2), Some(ChannelOpenFailure::ConnectFailed));
    assert_eq!(ChannelOpenFailure::from_u32(3), Some(ChannelOpenFailure::UnknownChannelType));
    assert_eq!(ChannelOpenFailure::from_u32(4), Some(ChannelOpenFailure::ResourceShortage));
    assert_eq!(ChannelOpenFailure::from_u32(0), None);
    assert_eq!(ChannelOpenFailure::from_u32(5), None);
}

#[test]
fn exit_signal_is_parsed() {
    let mut b = CryptoVec::new();
    b.push(98);
    b.push_u32_be(7);
    extend_ssh_string(&mut b, b"exit-signal");
    b.push(0);
    extend_ssh_string(&mut b, b"TERM");
    b.push(1);
    extend_ssh_string(&mut b, b"killed");
    extend_ssh_string(&mut b, b"en");
    match Packet::read(&b) {
        Ok(Packet::Request {
            id: 7,
            request: Request::ExitSignal { signal, core_dumped, error_message, lang_tag },
        }) => {
            assert!(matches!(signal, Sig::TERM));
            assert!(core_dumped);
            assert_eq!(error_message, "killed");
            assert_eq!(lang_tag, "en");
        }
        _ => panic!("another packet"),
    }
    let short = &b[..b.len() - 1];
    assert!(matches!(Packet::read(short), Err(Error::IndexOutOfBounds)));
}

#[test]
fn channel_opening_is_parsed() {
    let mut b = CryptoVec::new();
    b.push(90);
    extend_ssh_string(&mut b, b"forwarded-tcpip");
    b.push_u32_be(3);
    b.push_u32_be(1000);
    b.push_u32_be(2000);
    extend_ssh_string(&mut b, b"127.0.0.1");
    b.push_u32_be(8080);
    extend_ssh_string(&mut b, b"10.0.0.1");
    b.push_u32_be(4711);
    match Packet::read(&b) {
        Ok(Packet::Open {
            sender_channel: 3,
            window: 1000,
            max_packet: 2000,
            kind:
                OpenKind::ForwardedTcpip {
                    address,
                    port: 8080,
                    originator_address,
                    originator_port: 4711,
                },
        }) => {
            assert_eq!(address, b"127.0.0.1");
            assert_eq!(originator_address, b"10.0.0.1");
        }
        _ => panic!("another packet"),
    }
}

#[test]
fn unknown_packets_are_parsed_as_such() {
    assert!(matches!(Packet::read(&[200]), Ok(Packet::Unknown)));
    assert!(matches!(Packet::read(b"\x50\0\0\0\x01x"), Ok(Packet::GlobalRequest)));
    assert!(matches!(Packet::read(b"\x50\0\0\0\x02x"), Err(Error::IndexOutOfBounds)));
}
