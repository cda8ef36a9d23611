use cryptovec::CryptoVec;
use thrussh_client::buffer::buffer_of;
use thrussh_client::client::channel::{
    can_relay, relay_msg, Channel, ChannelExt, ChannelMsg, ChannelReader, ChannelSender,
    ChannelWriter, Msg, OpenChannelMsg, Polled, Pty, SendPoll, Side, WriterStep,
};
use thrussh_client::client::shell::{upgrade_to_shell, Awaited, ShellError, ShellStep};
use thrussh_client::client::tunnel::{
    comes_with_receiver, copy_chunk, upgrade_to_remote_forward_tcpip_listener, TunnelClient,
};
use thrussh_client::error::Error;
use thrussh_client::session::ChannelId;

fn data(bytes: &[u8]) -> Option<ChannelMsg> {
    Some(ChannelMsg::Data { data: buffer_of(bytes) })
}

fn ready<V>(p: Polled<V>) -> V {
    match p {
        Polled::Ready(v) => v,
        Polled::Pending => panic!("not ready"),
    }
}

fn channel() -> Channel<&'static str, u8> {
    Channel {
        sender: ChannelSender { sender: "session", id: ChannelId(9) },
        receiver: 1,
        window_size: 10,
        max_packet_size: 100,
    }
}

fn writer() -> ChannelWriter<&'static str> {
    let (_, writer, _) = channel().split().unwrap();
    writer
}

fn offered(step: WriterStep<usize>) -> Vec<u8> {
    match step {
        WriterStep::Send(Msg::Data { id, data }) => {
            assert_eq!(id, ChannelId(9));
            data.to_vec()
        }
        _ => panic!("no data"),
    }
}

#[test]
fn data_is_read_in_order() {
    let mut r = ChannelReader::new();
    assert!(r.read_pending(4).is_none());
    let mut out = ready(r.receive(data(b"hello world"), 4));
    assert_eq!(out, b"hell");
    while let Some(more) = r.read_pending(3) {
        assert!(more.len() <= 3);
        out.extend(more);
    }
    out.extend(ready(r.receive(data(b"!"), 8)));
    assert_eq!(out, b"hello world!");
    assert!(r.read_pending(8).is_none());
}

#[test]
fn nothing_is_lost_without_space() {
    let mut r = ChannelReader::new();
    assert_eq!(ready(r.receive(data(b"abc"), 0)), b"");
    assert_eq!(r.read_pending(0), Some(vec![]));
    assert_eq!(r.read_pending(2), Some(b"ab".to_vec()));
    assert_eq!(r.read_pending(2), Some(b"c".to_vec()));
    assert_eq!(r.read_pending(2), None);
}

#[test]
fn the_end_is_an_empty_read() {
    let mut r = ChannelReader::new();
    assert_eq!(ready(r.receive(Some(ChannelMsg::Eof), 8)), b"");
    assert_eq!(ready(r.receive(Some(ChannelMsg::ExitStatus { exit_status: 1 }), 8)), b"");
    assert_eq!(ready(r.receive(None, 8)), b"");
    assert!(matches!(r.receive(Some(ChannelMsg::Success), 8), Polled::Pending));
    assert!(matches!(
        r.receive(Some(ChannelMsg::WindowAdjusted { new_size: 1 }), 8),
        Polled::Pending
    ));
}

#[test]
fn a_split_channel_starts_idle() {
    let (mut reader, writer, channel) = channel().split().unwrap();
    assert!(reader.read_pending(1).is_none());
    assert_eq!(writer.channel_sender.sender, "session");
    assert_eq!(writer.channel_sender.id, ChannelId(9));
    assert_eq!((writer.window_size, writer.max_packet_size), (10, 100));
    assert!(!writer.sending && !writer.flush_pending && writer.write_flushed);
    assert_eq!(writer.pending_buf_size, 0);
    assert_eq!(channel.receiver, 1);
    assert_eq!(channel.get_sender(), "session");
    assert_eq!(writer.get_sender(), "session");
}

#[test]
fn writes_keep_to_the_window() {
    let mut w = writer();
    assert!(w.can_write(26));
    assert_eq!(offered(w.poll_write(b"abcdefghijklmnopqrstuvwxyz")), b"abcdefghij");
    assert!(matches!(w.write_sent(SendPoll::Sent), Polled::Ready(Ok(10))));
    assert_eq!(offered(w.poll_write(b"abc")), b"abc");
}

#[test]
fn writes_leave_room_in_a_packet() {
    let mut w = writer();
    w.window_size = 1000;
    assert_eq!(offered(w.poll_write(&[7; 50])).len(), 36);
    w.max_packet_size = 64;
    assert_eq!(offered(w.poll_write(&[7; 50])).len(), 0);
    w.max_packet_size = 63;
    assert!(!w.can_write(50));
}

#[test]
fn a_buffer_is_written_whole() {
    let mut w = writer();
    let buf = b"abcdefghijklmnopqrstuvwxyz";
    let mut out = Vec::new();
    while out.len() < buf.len() {
        let piece = offered(w.poll_write(&buf[out.len()..]));
        assert!(!piece.is_empty() && piece.len() <= 10);
        out.extend(piece);
        match w.write_sent(SendPoll::Sent) {
            Polled::Ready(Ok(n)) => assert!(n > 0),
            _ => panic!("not sent"),
        }
    }
    assert_eq!(out, buf);
}

#[test]
fn a_write_that_waits_reports_its_size() {
    let mut w = writer();
    assert_eq!(offered(w.poll_write(b"abc")), b"abc");
    assert!(matches!(w.write_sent(SendPoll::Waiting), Polled::Pending));
    assert!(w.sending);
    assert!(matches!(w.poll_write(b"abcdef"), WriterStep::PollSend));
    assert!(matches!(w.write_pending_sent(SendPoll::Waiting), Polled::Pending));
    assert!(matches!(w.poll_write(b"abcdef"), WriterStep::PollSend));
    assert!(matches!(w.write_pending_sent(SendPoll::Sent), Polled::Ready(Ok(3))));
    assert!(!w.sending);
    assert_eq!(offered(w.poll_write(b"def")), b"def");
}

#[test]
fn a_write_without_a_session_fails() {
    let mut w = writer();
    offered(w.poll_write(b"abc"));
    assert!(matches!(
        w.write_sent(SendPoll::Failed),
        Polled::Ready(Err(Error::SendError))
    ));
    assert!(!w.sending);
    w.sending = true;
    assert!(matches!(
        w.write_pending_sent(SendPoll::Failed),
        Polled::Ready(Err(Error::SendError))
    ));
    assert!(w.sending);
}

#[test]
fn a_closed_window_is_flushed_first() {
    let mut w = writer();
    w.window_size = 0;
    assert!(matches!(w.poll_write(b"abc"), WriterStep::Return(Polled::Pending)));
    assert!(!w.write_flushed);
    assert!(matches!(w.poll_write(b"abc"), WriterStep::Flush));
    match w.poll_flush() {
        WriterStep::Send(Msg::FlushPending { id }) => assert_eq!(id, ChannelId(9)),
        _ => panic!("no flush"),
    }
    assert!(matches!(w.flush_sent(SendPoll::Sent), WriterStep::Receive));
    let adjusted = Some(ChannelMsg::WindowAdjusted { new_size: 2 });
    assert!(matches!(w.flush_received(Polled::Ready(adjusted)), Polled::Pending));
    assert!(matches!(
        w.write_flush_done(Polled::Pending, b"abc"),
        WriterStep::Return(Polled::Pending)
    ));
    assert_eq!(offered(w.write_flush_done(Polled::Ready(Ok(())), b"abc")), b"ab");
    assert!(w.write_flushed);
}

#[test]
fn a_failed_flush_fails_the_write() {
    let mut w = writer();
    w.write_flushed = false;
    assert!(matches!(
        w.write_flush_done(Polled::Ready(Err(Error::SendError)), b"abc"),
        WriterStep::Return(Polled::Ready(Err(Error::SendError)))
    ));
    assert!(!w.write_flushed);
}

#[test]
fn a_flush_takes_the_place_of_a_send() {
    let mut w = writer();
    w.sending = true;
    assert!(matches!(w.poll_flush(), WriterStep::Send(Msg::FlushPending { .. })));
    assert!(matches!(
        w.flush_sent(SendPoll::Waiting),
        WriterStep::Return(Polled::Pending)
    ));
    assert!(w.sending);
    w.flush_pending = true;
    assert!(matches!(w.poll_flush(), WriterStep::PollSend));
    assert!(matches!(
        w.flush_sent(SendPoll::Failed),
        WriterStep::Return(Polled::Ready(Err(Error::SendError)))
    ));
    assert!(matches!(w.flush_sent(SendPoll::Sent), WriterStep::Receive));
    assert!(matches!(w.poll_flush(), WriterStep::Receive));
}

#[test]
fn a_flush_ends_with_its_acknowledgement() {
    let mut w = writer();
    w.flush_pending = true;
    let again = Some(ChannelMsg::FlushPendingAck { again: true });
    assert!(matches!(w.flush_received(Polled::Ready(again)), Polled::Pending));
    assert!(!w.flush_pending);
    let done = Some(ChannelMsg::FlushPendingAck { again: false });
    assert!(matches!(w.flush_received(Polled::Ready(done)), Polled::Ready(())));
    assert!(matches!(
        w.flush_received(Polled::Ready(Some(ChannelMsg::Eof))),
        Polled::Ready(())
    ));
    assert!(matches!(
        w.flush_received(Polled::Ready(Some(ChannelMsg::ExitStatus { exit_status: 0 }))),
        Polled::Ready(())
    ));
    assert!(matches!(w.flush_received(Polled::Ready(None)), Polled::Ready(())));
    assert!(matches!(w.flush_received(Polled::Pending), Polled::Pending));
    assert!(matches!(
        w.flush_received(Polled::Ready(Some(ChannelMsg::Success))),
        Polled::Pending
    ));
}

#[test]
fn shutdown_sends_the_end_once() {
    let mut w = writer();
    match w.poll_shutdown() {
        WriterStep::Send(Msg::Eof { id }) => assert_eq!(id, ChannelId(9)),
        _ => panic!("no end"),
    }
    assert!(matches!(w.shutdown_sent(SendPoll::Waiting), Polled::Pending));
    assert!(matches!(w.poll_shutdown(), WriterStep::PollSend));
    assert!(matches!(w.shutdown_sent(SendPoll::Sent), Polled::Ready(Ok(()))));
    assert!(matches!(
        w.shutdown_sent(SendPoll::Failed),
        Polled::Ready(Err(Error::SendError))
    ));
}

#[test]
fn a_new_terminal_size_is_told() {
    match writer().window_change(1, 2, 3, 4) {
        Msg::WindowChange { id, col_width, row_height, pix_width, pix_height } => {
            assert_eq!(id, ChannelId(9));
            assert_eq!((col_width, row_height, pix_width, pix_height), (1, 2, 3, 4));
        }
        _ => panic!("another message"),
    }
}

#[test]
fn messages_are_relayed() {
    let told = relay_msg(OpenChannelMsg::<u8>::Msg(ChannelMsg::Data { data: buffer_of(b"x") }));
    assert_eq!(told.len(), 1);
    assert_eq!(told[0].to, Side::Reader);
    assert_eq!(told[0].context, "relay data to reader failed");
    match &told[0].msg {
        ChannelMsg::Data { data } => assert_eq!(&data[..], b"x"),
        _ => panic!("another message"),
    }

    let told = relay_msg(OpenChannelMsg::<u8>::Msg(ChannelMsg::Eof));
    assert_eq!(told.len(), 2);
    assert_eq!((told[0].to, told[0].context), (Side::Reader, "relay eof to reader failed"));
    assert_eq!((told[1].to, told[1].context), (Side::Writer, "relay eof to writer failed"));

    let told = relay_msg(OpenChannelMsg::<u8>::Msg(ChannelMsg::ExitStatus { exit_status: 3 }));
    assert_eq!(told.len(), 2);
    assert!(matches!(told[0].msg, ChannelMsg::ExitStatus { exit_status: 3 }));
    assert!(matches!(told[1].msg, ChannelMsg::ExitStatus { exit_status: 3 }));
    assert_eq!(told[1].context, "relay exit status to writer failed");

    let told = relay_msg(OpenChannelMsg::<u8>::Msg(ChannelMsg::WindowAdjusted { new_size: 5 }));
    assert_eq!(told.len(), 1);
    assert_eq!(told[0].to, Side::Writer);
    assert_eq!(told[0].context, "relay window adjusted msg to writer failed");

    let told = relay_msg(OpenChannelMsg::<u8>::Msg(ChannelMsg::FlushPendingAck { again: true }));
    assert_eq!(told.len(), 1);
    assert_eq!(told[0].to, Side::Writer);
    assert_eq!(told[0].context, "relay flush pending ack to writer failed");
}

#[test]
fn messages_are_relayed_in_order() {
    let messages = vec![
        ChannelMsg::Data { data: buffer_of(b"a") },
        ChannelMsg::WindowAdjusted { new_size: 1 },
        ChannelMsg::Data { data: buffer_of(b"b") },
        ChannelMsg::FlushPendingAck { again: false },
        ChannelMsg::ExitStatus { exit_status: 2 },
        ChannelMsg::Eof,
    ];
    let (mut reader, mut writer) = (Vec::new(), Vec::new());
    for m in messages {
        for relay in relay_msg(OpenChannelMsg::<u8>::Msg(m)) {
            match relay.to {
                Side::Reader => reader.push(relay.msg),
                Side::Writer => writer.push(relay.msg),
            }
        }
    }
    assert_eq!(reader.len(), 4);
    assert!(matches!(&reader[0], ChannelMsg::Data { data } if &data[..] == b"a"));
    assert!(matches!(&reader[1], ChannelMsg::Data { data } if &data[..] == b"b"));
    assert!(matches!(reader[2], ChannelMsg::ExitStatus { exit_status: 2 }));
    assert!(matches!(reader[3], ChannelMsg::Eof));
    assert_eq!(writer.len(), 4);
    assert!(matches!(writer[0], ChannelMsg::WindowAdjusted { new_size: 1 }));
    assert!(matches!(writer[1], ChannelMsg::FlushPendingAck { again: false }));
    assert!(matches!(writer[2], ChannelMsg::ExitStatus { exit_status: 2 }));
    assert!(matches!(writer[3], ChannelMsg::Eof));
}

#[test]
fn some_messages_are_not_for_a_split_channel() {
    assert!(!can_relay(&OpenChannelMsg::<u8>::Msg(ChannelMsg::Success)));
    assert!(!can_relay(&OpenChannelMsg::<u8>::Msg(ChannelMsg::XonXoff { client_can_do: true })));
    assert!(!can_relay(&OpenChannelMsg::<u8>::Msg(ChannelMsg::ExtendedData {
        ext: 1,
        data: CryptoVec::new(),
    })));
    assert!(!can_relay(&OpenChannelMsg::<u8>::Open {
        id: ChannelId(1),
        max_packet_size: 1,
        window_size: 1,
        receiver: None,
    }));
    assert!(can_relay(&OpenChannelMsg::<u8>::Msg(ChannelMsg::Eof)));
}

#[test]
fn a_shell_needs_a_terminal_first() {
    let (upgrade, request) = upgrade_to_shell(channel());
    match request {
        Msg::RequestPty {
            id,
            want_reply,
            term,
            col_width,
            row_height,
            pix_width,
            pix_height,
            terminal_modes,
        } => {
            assert_eq!(id, ChannelId(9));
            assert!(want_reply);
            assert_eq!(term, "xterm");
            assert_eq!((col_width, row_height, pix_width, pix_height), (126, 24, 640, 480));
            assert_eq!(
                terminal_modes,
                vec![
                    (Pty::VERASE, 127),
                    (Pty::IUTF8, 1),
                    (Pty::ECHO, 1),
                    (Pty::VQUIT, 28),
                    (Pty::TTY_OP_ISPEED, 36000),
                    (Pty::TTY_OP_OSPEED, 36000),
                ]
            );
        }
        _ => panic!("another request"),
    }
    let upgrade = match upgrade.received(Some(ChannelMsg::Success)) {
        Ok(ShellStep::Send(upgrade, Msg::RequestShell { id, want_reply })) => {
            assert_eq!(id, ChannelId(9));
            assert!(want_reply);
            upgrade
        }
        _ => panic!("no shell was asked for"),
    };
    let upgrade = match upgrade.received(Some(ChannelMsg::WindowAdjusted { new_size: 4096 })) {
        Ok(ShellStep::Wait(upgrade)) => upgrade,
        _ => panic!("the window was not noted"),
    };
    match upgrade.received(Some(ChannelMsg::Success)) {
        Ok(ShellStep::Done(channel)) => {
            assert_eq!(channel.window_size, 4096);
            assert_eq!(channel.max_packet_size, 100);
            assert_eq!(channel.receiver, 1);
        }
        _ => panic!("no shell"),
    }
}

#[test]
fn a_shell_may_be_refused() {
    let (upgrade, _) = upgrade_to_shell(channel());
    match upgrade.received(Some(ChannelMsg::Eof)) {
        Err(e) => {
            assert!(matches!(e, ShellError::Unexpected(Awaited::Pty, ChannelMsg::Eof)));
            assert_eq!(e.text(), "unexcepted msg while waiting for Success on requesting pty");
        }
        _ => panic!("no error"),
    }
    let (upgrade, _) = upgrade_to_shell(channel());
    match upgrade.received(None) {
        Err(e) => {
            assert_eq!(e.text(), "received empty msg while waiting for Success on requesting pty")
        }
        _ => panic!("no error"),
    }
    let (mut upgrade, _) = upgrade_to_shell(channel());
    upgrade.awaited = Awaited::Window;
    match upgrade.received(Some(ChannelMsg::Success)) {
        Err(e) => assert_eq!(
            e.text(),
            "unexcepted msg while waiting for WindowAdjusted on requesting shell"
        ),
        _ => panic!("no error"),
    }
    let (mut upgrade, _) = upgrade_to_shell(channel());
    upgrade.awaited = Awaited::Shell;
    match upgrade.received(Some(ChannelMsg::Eof)) {
        Err(e) => {
            assert_eq!(e.text(), "unexcepted msg while waiting for Success on requesting shell")
        }
        _ => panic!("no error"),
    }
    let (mut upgrade, _) = upgrade_to_shell(channel());
    upgrade.awaited = Awaited::Window;
    match upgrade.received(None) {
        Err(e) => assert_eq!(
            e.text(),
            "received empty msg while waiting for Success on requesting shell"
        ),
        _ => panic!("no error"),
    }
}

#[test]
fn a_listener_yields_channels() {
    let (listener, request) =
        upgrade_to_remote_forward_tcpip_listener(channel(), "127.0.0.1".to_string(), 8989);
    match request {
        Msg::TcpIpForward { id, want_reply, address, port } => {
            assert_eq!(id, ChannelId(9));
            assert!(!want_reply);
            assert_eq!(address, "127.0.0.1");
            assert_eq!(port, 8989);
        }
        _ => panic!("another request"),
    }
    let open = Polled::Ready(Some(OpenChannelMsg::Open {
        id: ChannelId(4),
        max_packet_size: 7,
        window_size: 8,
        receiver: Some(6),
    }));
    assert!(comes_with_receiver(&open));
    match listener.poll_next(open) {
        Polled::Ready(Some(c)) => {
            assert_eq!(c.sender.sender, "session");
            assert_eq!(c.sender.id, ChannelId(4));
            assert_eq!((c.receiver, c.window_size, c.max_packet_size), (6, 8, 7));
        }
        _ => panic!("no channel"),
    }
    assert!(matches!(listener.poll_next(Polled::Pending), Polled::Pending));
    assert!(matches!(listener.poll_next(Polled::Ready(None)), Polled::Ready(None)));
    let eof = Polled::Ready(Some(OpenChannelMsg::Msg(ChannelMsg::Eof)));
    assert!(matches!(listener.poll_next(eof), Polled::Pending));
    assert!(!comes_with_receiver(&Polled::Ready(Some(OpenChannelMsg::<u8>::Open {
        id: ChannelId(4),
        max_packet_size: 7,
        window_size: 8,
        receiver: None,
    }))));
}

#[test]
fn a_tunnel_trusts_every_key() {
    assert!(TunnelClient::new().check_server_key());
}

#[test]
fn copies_end_with_an_empty_read() {
    assert_eq!(copy_chunk(b"abcdef", 3), Some(&b"abc"[..]));
    assert_eq!(copy_chunk(b"abcdef", 0), None);
    let reads: [(&[u8], usize); 4] = [(b"abcd", 2), (b"xy", 2), (b"zz", 0), (b"lost", 4)];
    let mut out = Vec::new();
    for (buf, n) in reads.iter() {
        match copy_chunk(buf, *n) {
            Some(chunk) => out.extend_from_slice(chunk),
            None => break,
        }
    }
    assert_eq!(out, b"abxy");
}
