//! A shell on a channel: a terminal is asked for, then a shell on it.
use crate::client::channel::{Channel, ChannelMsg, Msg, Pty};
use crate::session::ChannelId;
use vstd::prelude::*;

verus! {

/// What the upgrade of a channel waits for.
#[derive(Clone, Copy, Debug, PartialEq, Eq, Structural)]
pub enum Awaited {
    /// The terminal is granted.
    Pty,
    /// The server takes input for the shell.
    Window,
    /// The shell is granted.
    Shell,
}

/// A channel on its way to a shell.
pub struct ShellUpgrade<S, R> {
    pub channel: Channel<S, R>,
    pub awaited: Awaited,
}

/// What the upgrade of a channel needs next.
pub enum ShellStep<S, R> {
    /// Send the message, and wait for the next one.
    Send(ShellUpgrade<S, R>, Msg),
    /// Wait for the next message.
    Wait(ShellUpgrade<S, R>),
    /// Nothing more: there is a shell on the channel.
    Done(Channel<S, R>),
}

/// Why there is no shell on a channel.
pub enum ShellError {
    /// Another message came than the awaited one.
    Unexpected(Awaited, ChannelMsg),
    /// No more messages come.
    Empty(Awaited),
}

impl ShellError {
    /// What went wrong, in words.
    pub fn text(&self) -> (r: &'static str)
        ensures
            r@ == (match self {
                ShellError::Unexpected(Awaited::Pty, _) => {
                    "unexcepted msg while waiting for Success on requesting pty"@
                },
                ShellError::Empty(Awaited::Pty) => {
                    "received empty msg while waiting for Success on requesting pty"@
                },
                ShellError::Unexpected(Awaited::Window, _) => {
                    "unexcepted msg while waiting for WindowAdjusted on requesting shell"@
                },
                ShellError::Unexpected(Awaited::Shell, _) => {
                    "unexcepted msg while waiting for Success on requesting shell"@
                },
                ShellError::Empty(_) => {
                    "received empty msg while waiting for Success on requesting shell"@
                },
            }),
    {
        match self {
            ShellError::Unexpected(Awaited::Pty, _) => {
                "unexcepted msg while waiting for Success on requesting pty"
            },
            ShellError::Empty(Awaited::Pty) => {
                "received empty msg while waiting for Success on requesting pty"
            },
            ShellError::Unexpected(Awaited::Window, _) => {
                "unexcepted msg while waiting for WindowAdjusted on requesting shell"
            },
            ShellError::Unexpected(Awaited::Shell, _) => {
                "unexcepted msg while waiting for Success on requesting shell"
            },
            ShellError::Empty(_) => {
                "received empty msg while waiting for Success on requesting shell"
            },
        }
    }
}

/// The modes of the terminal that is asked for.
pub open spec fn tty_modes() -> Seq<(Pty, u32)> {
    seq![
        (Pty::VERASE, 127u32),
        (Pty::IUTF8, 1u32),
        (Pty::ECHO, 1u32),
        (Pty::VQUIT, 28u32),
        (Pty::TTY_OP_ISPEED, 36000u32),
        (Pty::TTY_OP_OSPEED, 36000u32),
    ]
}

/// The message asks for a terminal of 126 columns and 24 rows on a channel.
pub open spec fn asks_for_pty(m: Msg, channel: ChannelId) -> bool {
    &&& m matches Msg::RequestPty {
        id,
        want_reply,
        term,
        col_width,
        row_height,
        pix_width,
        pix_height,
        terminal_modes,
    }
    &&& id == channel
    &&& want_reply
    &&& term@ == "xterm"@
    &&& col_width == 126
    &&& row_height == 24
    &&& pix_width == 640
    &&& pix_height == 480
    &&& terminal_modes@ == tty_modes()
}

/// Starts to put a shell on a channel: the message is to be sent, then `received` to be called
/// with the next one of the channel.
pub fn upgrade_to_shell<S, R>(channel: Channel<S, R>) -> (r: (ShellUpgrade<S, R>, Msg))
    ensures
        r.0 == (ShellUpgrade { channel, awaited: Awaited::Pty }),
        asks_for_pty(r.1, channel.sender.id),
{
    let mut terminal_modes: Vec<(Pty, u32)> = Vec::new();
    terminal_modes.push((Pty::VERASE, 127));
    terminal_modes.push((Pty::IUTF8, 1));
    terminal_modes.push((Pty::ECHO, 1));
    terminal_modes.push((Pty::VQUIT, 28));
    terminal_modes.push((Pty::TTY_OP_ISPEED, 36000));
    terminal_modes.push((Pty::TTY_OP_OSPEED, 36000));
    assert(terminal_modes@ =~= tty_modes());
    let m = Msg::RequestPty {
        id: channel.sender.id,
        want_reply: true,
        term: "xterm".to_owned(),
        col_width: 126,
        row_height: 24,
        pix_width: 640,
        pix_height: 480,
        terminal_modes,
    };
    (ShellUpgrade { channel, awaited: Awaited::Pty }, m)
}

/// What comes of an upgrade with the next message of its channel.
pub open spec fn upgraded<S, R>(u: ShellUpgrade<S, R>, m: Option<ChannelMsg>) -> Result<
    ShellStep<S, R>,
    ShellError,
> {
    match (u.awaited, m) {
        (_, None) => Err(ShellError::Empty(u.awaited)),
        (Awaited::Pty, Some(ChannelMsg::Success)) => Ok(
            ShellStep::Send(
                ShellUpgrade { awaited: Awaited::Window, ..u },
                Msg::RequestShell { id: u.channel.sender.id, want_reply: true },
            ),
        ),
        (Awaited::Window, Some(ChannelMsg::WindowAdjusted { new_size })) => Ok(
            ShellStep::Wait(
                ShellUpgrade {
                    awaited: Awaited::Shell,
                    channel: Channel { window_size: new_size, ..u.channel },
                },
            ),
        ),
        (Awaited::Shell, Some(ChannelMsg::Success)) => Ok(ShellStep::Done(u.channel)),
        (_, Some(other)) => Err(ShellError::Unexpected(u.awaited, other)),
    }
}

impl<S, R> ShellUpgrade<S, R> {
    /// Goes on with the next message of the channel.
    pub fn received(self, m: Option<ChannelMsg>) -> (r: Result<ShellStep<S, R>, ShellError>)
        ensures
            r == upgraded(self, m),
    {
        let m = match m {
            Some(m) => m,
            None => {
                return Err(ShellError::Empty(self.awaited));
            },
        };
        let mut channel = self.channel;
        match self.awaited {
            Awaited::Pty => match m {
                ChannelMsg::Success => {
                    let request = Msg::RequestShell { id: channel.sender.id, want_reply: true };
                    Ok(
                        ShellStep::Send(
                            ShellUpgrade { channel, awaited: Awaited::Window },
                            request,
                        ),
                    )
                },
                other => Err(ShellError::Unexpected(Awaited::Pty, other)),
            },
            Awaited::Window => match m {
                ChannelMsg::WindowAdjusted { new_size } => {
                    channel.window_size = new_size;
                    Ok(ShellStep::Wait(ShellUpgrade { channel, awaited: Awaited::Shell }))
                },
                other => Err(ShellError::Unexpected(Awaited::Window, other)),
            },
            Awaited::Shell => match m {
                ChannelMsg::Success => Ok(ShellStep::Done(channel)),
                other => Err(ShellError::Unexpected(Awaited::Shell, other)),
            },
        }
    }
}

/// The channel that an upgrade ends with, given the first three messages, if it ends there.
pub open spec fn shell_of<S, R>(
    channel: Channel<S, R>,
    first: Option<ChannelMsg>,
    second: Option<ChannelMsg>,
    third: Option<ChannelMsg>,
) -> Option<Channel<S, R>> {
    match upgraded(ShellUpgrade { channel, awaited: Awaited::Pty }, first) {
        Ok(ShellStep::Send(u, _)) => match upgraded(u, second) {
            Ok(ShellStep::Wait(u)) => match upgraded(u, third) {
                Ok(ShellStep::Done(channel)) => Some(channel),
                _ => None,
            },
            _ => None,
        },
        _ => None,
    }
}

/// There is a shell on a channel exactly after the terminal was granted, a window was opened and
/// the shell was granted, in this order; the channel is the one from the start, with that window.
pub proof fn law_shell_of<S, R>(
    channel: Channel<S, R>,
    first: Option<ChannelMsg>,
    second: Option<ChannelMsg>,
    third: Option<ChannelMsg>,
)
    ensures
        shell_of(channel, first, second, third) == (match (first, second, third) {
            (
                Some(ChannelMsg::Success),
                Some(ChannelMsg::WindowAdjusted { new_size }),
                Some(ChannelMsg::Success),
            ) => Some(Channel { window_size: new_size, ..channel }),
            _ => None,
        }),
{
}

/// The upgrade of a channel goes on with a granted terminal by asking for a shell with an answer,
/// and with an opened window by waiting; it ends with the first message out of order, which is
/// given back, or with the end of the messages.
pub proof fn law_shell_steps<S, R>(u: ShellUpgrade<S, R>, m: Option<ChannelMsg>)
    ensures
        m is None ==> upgraded(u, m) == Err::<ShellStep<S, R>, ShellError>(
            ShellError::Empty(u.awaited),
        ),
        m matches Some(msg) ==> {
            let wanted = match u.awaited {
                Awaited::Window => msg is WindowAdjusted,
                _ => msg is Success,
            };
            &&& upgraded(u, m) is Ok <==> wanted
            &&& !wanted ==> upgraded(u, m) == Err::<ShellStep<S, R>, ShellError>(
                ShellError::Unexpected(u.awaited, msg),
            )
        },
        upgraded(u, m) matches Ok(ShellStep::Send(next, request)) ==> {
            &&& u.awaited == Awaited::Pty
            &&& next.channel == u.channel
            &&& next.awaited == Awaited::Window
            &&& request == (Msg::RequestShell { id: u.channel.sender.id, want_reply: true })
        },
        upgraded(u, m) matches Ok(ShellStep::Wait(next)) ==> {
            &&& u.awaited == Awaited::Window
            &&& next.awaited == Awaited::Shell
            &&& m matches Some(ChannelMsg::WindowAdjusted { new_size })
            &&& next.channel == (Channel { window_size: new_size, ..u.channel })
        },
        upgraded(u, m) matches Ok(ShellStep::Done(channel)) ==> u.awaited == Awaited::Shell
            && channel == u.channel,
{
}

} // verus!
