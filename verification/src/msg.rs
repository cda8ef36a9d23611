//! The numbers of the messages that a client reads and writes.
use vstd::prelude::*;

verus! {

pub const SERVICE_REQUEST: u8 = 5;

pub const SERVICE_ACCEPT: u8 = 6;

pub const KEXINIT: u8 = 20;

pub const NEWKEYS: u8 = 21;

pub const KEX_ECDH_REPLY: u8 = 31;

pub const USERAUTH_REQUEST: u8 = 50;

pub const USERAUTH_FAILURE: u8 = 51;

pub const USERAUTH_SUCCESS: u8 = 52;

pub const USERAUTH_BANNER: u8 = 53;

pub const USERAUTH_PK_OK: u8 = 60;

pub const GLOBAL_REQUEST: u8 = 80;

pub const CHANNEL_OPEN: u8 = 90;

pub const CHANNEL_OPEN_CONFIRMATION: u8 = 91;

pub const CHANNEL_OPEN_FAILURE: u8 = 92;

pub const CHANNEL_WINDOW_ADJUST: u8 = 93;

pub const CHANNEL_DATA: u8 = 94;

pub const CHANNEL_EXTENDED_DATA: u8 = 95;

pub const CHANNEL_EOF: u8 = 96;

pub const CHANNEL_CLOSE: u8 = 97;

pub const CHANNEL_REQUEST: u8 = 98;

pub const CHANNEL_SUCCESS: u8 = 99;

} // verus!
