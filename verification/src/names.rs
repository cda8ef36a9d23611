//! The signals and the reasons that packets name.
use crate::encoding::same_bytes;
use crate::error::{text, text_of, Error};
use vstd::prelude::*;
use vstd::string::StringSliceAdditionalSpecFns;

verus! {

/// A signal that ended a remote process.
pub enum Sig {
    ABRT,
    ALRM,
    FPE,
    HUP,
    ILL,
    INT,
    KILL,
    PIPE,
    QUIT,
    SEGV,
    TERM,
    USR1,
    Custom(String),
}

/// The mathematical counterpart of `Sig`.
pub enum SigView {
    ABRT,
    ALRM,
    FPE,
    HUP,
    ILL,
    INT,
    KILL,
    PIPE,
    QUIT,
    SEGV,
    TERM,
    USR1,
    Custom(Seq<char>),
}

impl View for Sig {
    type V = SigView;

    open spec fn view(&self) -> SigView {
        match self {
            Sig::ABRT => SigView::ABRT,
            Sig::ALRM => SigView::ALRM,
            Sig::FPE => SigView::FPE,
            Sig::HUP => SigView::HUP,
            Sig::ILL => SigView::ILL,
            Sig::INT => SigView::INT,
            Sig::KILL => SigView::KILL,
            Sig::PIPE => SigView::PIPE,
            Sig::QUIT => SigView::QUIT,
            Sig::SEGV => SigView::SEGV,
            Sig::TERM => SigView::TERM,
            Sig::USR1 => SigView::USR1,
            Sig::Custom(s) => SigView::Custom(s@),
        }
    }
}

/// The signal of a name. A name without a signal of its own has to be a text.
pub open spec fn sig_named(name: Seq<u8>) -> Result<SigView, Error> {
    if name == "ABRT".spec_bytes() {
        Ok(SigView::ABRT)
    } else if name == "ALRM".spec_bytes() {
        Ok(SigView::ALRM)
    } else if name == "FPE".spec_bytes() {
        Ok(SigView::FPE)
    } else if name == "HUP".spec_bytes() {
        Ok(SigView::HUP)
    } else if name == "ILL".spec_bytes() {
        Ok(SigView::ILL)
    } else if name == "INT".spec_bytes() {
        Ok(SigView::INT)
    } else if name == "KILL".spec_bytes() {
        Ok(SigView::KILL)
    } else if name == "PIPE".spec_bytes() {
        Ok(SigView::PIPE)
    } else if name == "QUIT".spec_bytes() {
        Ok(SigView::QUIT)
    } else if name == "SEGV".spec_bytes() {
        Ok(SigView::SEGV)
    } else if name == "TERM".spec_bytes() {
        Ok(SigView::TERM)
    } else if name == "USR1".spec_bytes() {
        Ok(SigView::USR1)
    } else {
        match text_of(name) {
            Ok(s) => Ok(SigView::Custom(s)),
            Err(e) => Err(e),
        }
    }
}

impl Sig {
    /// The signal of a name.
    pub fn from_name(name: &[u8]) -> (r: Result<Sig, Error>)
        ensures
            match r {
                Ok(s) => sig_named(name@) == Ok::<SigView, Error>(s@),
                Err(e) => sig_named(name@) == Err::<SigView, Error>(e),
            },
    {
        if same_bytes(name, "ABRT".as_bytes()) {
            Ok(Sig::ABRT)
        } else if same_bytes(name, "ALRM".as_bytes()) {
            Ok(Sig::ALRM)
        } else if same_bytes(name, "FPE".as_bytes()) {
            Ok(Sig::FPE)
        } else if same_bytes(name, "HUP".as_bytes()) {
            Ok(Sig::HUP)
        } else if same_bytes(name, "ILL".as_bytes()) {
            Ok(Sig::ILL)
        } else if same_bytes(name, "INT".as_bytes()) {
            Ok(Sig::INT)
        } else if same_bytes(name, "KILL".as_bytes()) {
            Ok(Sig::KILL)
        } else if same_bytes(name, "PIPE".as_bytes()) {
            Ok(Sig::PIPE)
        } else if same_bytes(name, "QUIT".as_bytes()) {
            Ok(Sig::QUIT)
        } else if same_bytes(name, "SEGV".as_bytes()) {
            Ok(Sig::SEGV)
        } else if same_bytes(name, "TERM".as_bytes()) {
            Ok(Sig::TERM)
        } else if same_bytes(name, "USR1".as_bytes()) {
            Ok(Sig::USR1)
        } else {
            let s = text(name)?;
            Ok(Sig::Custom(s.to_owned()))
        }
    }
}

/// Why the server did not open a channel.
#[derive(Clone, Copy, Debug, PartialEq, Eq, Structural)]
pub enum ChannelOpenFailure {
    AdministrativelyProhibited,
    ConnectFailed,
    UnknownChannelType,
    ResourceShortage,
}

/// The reason of a number.
pub open spec fn failure_numbered(x: u32) -> Option<ChannelOpenFailure> {
    if x == 1 {
        Some(ChannelOpenFailure::AdministrativelyProhibited)
    } else if x == 2 {
        Some(ChannelOpenFailure::ConnectFailed)
    } else if x == 3 {
        Some(ChannelOpenFailure::UnknownChannelType)
    } else if x == 4 {
        Some(ChannelOpenFailure::ResourceShortage)
    } else {
        None
    }
}

impl ChannelOpenFailure {
    /// The reason of a number.
    pub fn from_u32(x: u32) -> (r: Option<ChannelOpenFailure>)
        ensures
            r == failure_numbered(x),
    {
        if x == 1 {
            Some(ChannelOpenFailure::AdministrativelyProhibited)
        } else if x == 2 {
            Some(ChannelOpenFailure::ConnectFailed)
        } else if x == 3 {
            Some(ChannelOpenFailure::UnknownChannelType)
        } else if x == 4 {
            Some(ChannelOpenFailure::ResourceShortage)
        } else {
            None
        }
    }
}

/// The name of a signal.
pub open spec fn name_of(signal: SigView) -> Seq<u8> {
    match signal {
        SigView::ABRT => "ABRT".spec_bytes(),
        SigView::ALRM => "ALRM".spec_bytes(),
        SigView::FPE => "FPE".spec_bytes(),
        SigView::HUP => "HUP".spec_bytes(),
        SigView::ILL => "ILL".spec_bytes(),
        SigView::INT => "INT".spec_bytes(),
        SigView::KILL => "KILL".spec_bytes(),
        SigView::PIPE => "PIPE".spec_bytes(),
        SigView::QUIT => "QUIT".spec_bytes(),
        SigView::SEGV => "SEGV".spec_bytes(),
        SigView::TERM => "TERM".spec_bytes(),
        SigView::USR1 => "USR1".spec_bytes(),
        SigView::Custom(text) => vstd::utf8::encode_utf8(text),
    }
}

/// The signal of a name is the one that has this name, and one with a variant of its own is given
/// by it. A name fails exactly if it is no text.
pub proof fn law_signal_has_name(name: Seq<u8>)
    ensures
        sig_named(name) matches Ok(signal) ==> name_of(signal) == name,
        sig_named(name) == Ok::<SigView, Error>(SigView::Custom(vstd::utf8::decode_utf8(name)))
            ==> forall|signal: SigView|
            !(signal is Custom) ==> #[trigger] name_of(signal) != name,
        sig_named(name) is Err ==> sig_named(name) == Err::<SigView, Error>(Error::Utf8)
            && !vstd::utf8::valid_utf8(name),
        vstd::utf8::valid_utf8(name) ==> sig_named(name) is Ok,
{
    if vstd::utf8::valid_utf8(name) {
        vstd::utf8::decode_utf8_encode_utf8(name);
    }
    vstd::utf8::encode_utf8_valid_utf8("ABRT"@);
    vstd::utf8::encode_utf8_valid_utf8("ALRM"@);
    vstd::utf8::encode_utf8_valid_utf8("FPE"@);
    vstd::utf8::encode_utf8_valid_utf8("HUP"@);
    vstd::utf8::encode_utf8_valid_utf8("ILL"@);
    vstd::utf8::encode_utf8_valid_utf8("INT"@);
    vstd::utf8::encode_utf8_valid_utf8("KILL"@);
    vstd::utf8::encode_utf8_valid_utf8("PIPE"@);
    vstd::utf8::encode_utf8_valid_utf8("QUIT"@);
    vstd::utf8::encode_utf8_valid_utf8("SEGV"@);
    vstd::utf8::encode_utf8_valid_utf8("TERM"@);
    vstd::utf8::encode_utf8_valid_utf8("USR1"@);
}

/// A signal is seen as what it is.
pub proof fn law_signal_seen(signal: Sig)
    ensures
        signal is ABRT <==> signal@ == SigView::ABRT,
        signal is ALRM <==> signal@ == SigView::ALRM,
        signal is FPE <==> signal@ == SigView::FPE,
        signal is HUP <==> signal@ == SigView::HUP,
        signal is ILL <==> signal@ == SigView::ILL,
        signal is INT <==> signal@ == SigView::INT,
        signal is KILL <==> signal@ == SigView::KILL,
        signal is PIPE <==> signal@ == SigView::PIPE,
        signal is QUIT <==> signal@ == SigView::QUIT,
        signal is SEGV <==> signal@ == SigView::SEGV,
        signal is TERM <==> signal@ == SigView::TERM,
        signal is USR1 <==> signal@ == SigView::USR1,
        signal matches Sig::Custom(text) ==> signal@ == SigView::Custom(text@),
{
}

/// The number of a reason.
pub open spec fn number_of(reason: ChannelOpenFailure) -> u32 {
    match reason {
        ChannelOpenFailure::AdministrativelyProhibited => 1,
        ChannelOpenFailure::ConnectFailed => 2,
        ChannelOpenFailure::UnknownChannelType => 3,
        ChannelOpenFailure::ResourceShortage => 4,
    }
}

/// Numbers and reasons correspond.
pub proof fn law_reason_has_number(x: u32, reason: ChannelOpenFailure)
    ensures
        failure_numbered(x) == Some(reason) <==> number_of(reason) == x,
        failure_numbered(x) is Some <==> 1 <= x <= 4,
{
}

} // verus!
