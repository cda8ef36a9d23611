//! Tests of what a session asks of its callers before it reads a packet.
use crate::auth::{auth_request, key_request, request_head, Method, PublicKey};
use crate::buffer::{buffer_max, longest};
use crate::client::encrypted::{
    acceptable, auth_fits, fetches_user, fits, forward_fits, readable,
};
use crate::client::Session;
use crate::encoding::reader;
use crate::msg;
use crate::names::ChannelOpenFailure;
use crate::packet::Packet;
use crate::session::{has_free_id, EncryptedState, IpAddr, Kex, SocketAddr, Transport};
use vstd::prelude::*;
use vstd::string::StringSliceAdditionalSpecFns;

verus! {

broadcast use vstd::std_specs::hash::group_hash_axioms;

/// Every channel number is used exactly when as many are used as there are.
proof fn lemma_all_ids(used: Set<u32>)
    requires
        used.finite(),
    ensures
        has_free_id(used) == (used.len() < 0x1_0000_0000),
{
    let numbers = vstd::set_lib::set_int_range(0, 0x1_0000_0000);
    vstd::set_lib::lemma_int_range(0, 0x1_0000_0000);
    let every = numbers.map(|i: int| i as u32);
    assert forall|id: u32| every.contains(id) by {
        assert(numbers.contains(id as int) && id == (id as int) as u32);
    }
    assert(vstd::relations::injective_on(|i: int| i as u32, numbers));
    vstd::set_lib::lemma_map_size(numbers, every, |i: int| i as u32);
    if has_free_id(used) {
        let id = choose|id: u32| !used.contains(id);
        assert(used.insert(id).subset_of(every));
        vstd::set_lib::lemma_len_subset(used.insert(id), every);
    } else {
        assert(used =~= every);
    }
}

/// The length of a request with a public key.
fn key_request_len(user: &str, key: &PublicKey) -> (n: u128)
    ensures
        n == key_request(user@, *key, false).len(),
        n == key_request(user@, *key, true).len(),
        n <= 0x20_0000_0000_0000_0000,
{
    let name: u128 = key.name.as_str().as_bytes().len() as u128;
    let blob: u128 = key.blob.as_slice().len() as u128;
    request_head_len(user, "publickey") + 9 + name + blob
}

/// The length of the part that all the requests of a user have in common.
fn request_head_len(user: &str, method: &str) -> (n: u128)
    ensures
        n == request_head(user@, method.spec_bytes()).len(),
        n <= 0x10_0000_0000_0000_0000,
{
    let user: u128 = user.as_bytes().len() as u128;
    let service: u128 = "ssh-connection".as_bytes().len() as u128;
    let method: u128 = method.as_bytes().len() as u128;
    user + service + method + 13
}

impl<T: Transport> Method<T> {
    /// The length of the request that opens the authentication of `user` by this method.
    fn request_len(&self, user: &str) -> (n: u128)
        ensures
            n == auth_request(user@, *self).len(),
            n <= 0x20_0000_0000_0000_0000,
    {
        match self {
            Method::Password { password } => {
                let n: u128 = password.as_str().as_bytes().len() as u128;
                request_head_len(user, "password") + 5 + n
            },
            Method::PublicKey { key, pair } => key_request_len(user, key),
            Method::FuturePublicKey { key } => key_request_len(user, key),
        }
    }
}

impl<T: Transport> Session<T> {
    /// Whether `n` more bytes fit the packets that wait for the cipher.
    pub fn has_room(&self, n: usize) -> (r: bool)
        ensures
            r == self@.room(n as nat),
    {
        match &self.common.encrypted {
            Some(enc) => enc.write.len() as u128 + n as u128 <= longest() as u128,
            None => true,
        }
    }

    /// Whether `n` more bytes fit the packets that go straight to the cipher.
    pub fn has_room_now(&self, n: usize) -> (r: bool)
        ensures
            r == (self@.write_buffer.len() + n <= buffer_max()),
    {
        self.common.write_buffer.buffer.len() as u128 + n as u128 <= longest() as u128
    }

    /// Whether there is a number for a new channel.
    pub fn has_free_number(&self) -> (r: bool)
        ensures
            r == (self@.encrypted matches Some(e) ==> has_free_id(e.channels.dom())),
    {
        match &self.common.encrypted {
            Some(enc) => {
                proof {
                    assert(enc@.channels.dom() =~= enc.channels@.dom());
                    lemma_all_ids(enc.channels@.dom());
                }
                (enc.channels.len() as u64) < 0x1_0000_0000
            },
            None => true,
        }
    }

    /// Whether a request of `user` by a method fits the packets that wait for the cipher.
    pub fn has_room_for(&self, user: &str, method: &Method<T>) -> (r: bool)
        ensures
            r == self@.room(4 + auth_request(user@, *method).len()),
    {
        match &self.common.encrypted {
            Some(enc) => {
                enc.write.len() as u128 + 4 + method.request_len(user) <= longest() as u128
            },
            None => true,
        }
    }

    /// Whether what is written when a user chooses a name and a method fits.
    pub fn can_choose(&self, user: &str, method: &Method<T>) -> (r: bool)
        ensures
            r == auth_fits(self@, user@, *method),
    {
        match &self.common.encrypted {
            Some(enc) => match enc.state {
                EncryptedState::WaitingAuthRequest(_) => self.has_room_for(user, method),
                EncryptedState::WaitingServiceRequest { sent, accepted } => {
                    (!accepted || self.has_room_for(user, method)) && (sent || self.has_room_now(
                        21,
                    ))
                },
                _ => true,
            },
            None => true,
        }
    }

    /// Whether a channel for a connection to a forwarded port can be opened, if one listens for
    /// it.
    pub fn can_forward(&self, ip: IpAddr, port: u32) -> (r: bool)
        ensures
            r == forward_fits(self@, ip, port),
    {
        match self.remote_forward_channels.get(SocketAddr { ip, port: port as u16 }) {
            Some(id) => {
                !self.channels.contains_key(&id.0) || (self.has_room(21) && self.has_free_number())
            },
            None => true,
        }
    }

    /// Whether what may have to be written about a packet fits.
    pub fn fits(&self) -> (r: bool)
        ensures
            r == fits(self@),
    {
        if !self.has_room(43) {
            return false;
        }
        match (&self.common.encrypted, &self.common.auth_method) {
            (Some(enc), Some(method)) => {
                let user = self.common.auth_user.as_str();
                if !self.has_room_for(user, method) {
                    return false;
                }
                let id: u128 = enc.session_id.len() as u128;
                match method {
                    Method::Password { password } => true,
                    Method::PublicKey { key, pair } => {
                        id + 4 + key_request_len(user, key) <= longest() as u128
                    },
                    Method::FuturePublicKey { key } => {
                        id + 4 + key_request_len(user, key) <= longest() as u128
                    },
                }
            },
            _ => true,
        }
    }

    /// Whether a packet is one that an authenticated client can read.
    fn can_read(&self, buf: &[u8]) -> (r: bool)
        ensures
            r == readable(self@, buf@),
    {
        if buf.len() == 0 {
            return false;
        }
        if buf[0] == msg::CHANNEL_OPEN_FAILURE && buf.len() >= 9 {
            let mut r = reader(buf, 5);
            if let Ok(code) = r.read_u32() {
                if ChannelOpenFailure::from_u32(code).is_none() {
                    return false;
                }
            }
        }
        match Packet::read(buf) {
            Ok(Packet::WindowAdjust { id, amount }) => match &self.common.encrypted {
                Some(enc) => match enc.channels.get(&id) {
                    Some(p) => p.recipient_window_size as u64 + amount as u64 <= 0xffff_ffff,
                    None => true,
                },
                None => true,
            },
            _ => true,
        }
    }

    /// Whether the user of the session is fetched for a packet before all of it is read.
    pub fn fetches_user(&self, buf: &[u8]) -> (r: bool)
        ensures
            r == fetches_user(self@, buf@),
    {
        if buf.len() == 0 || buf[0] != msg::CHANNEL_REQUEST {
            return false;
        }
        let enc = match &self.common.encrypted {
            Some(enc) => enc,
            None => {
                return false;
            },
        };
        match &enc.rekey {
            None | Some(Kex::KexInit(_)) => {},
            _ => {
                return false;
            },
        }
        match enc.state {
            EncryptedState::Authenticated => {},
            _ => {
                return false;
            },
        }
        let mut r = reader(buf, 1);
        r.read_u32().is_ok() && r.read_string().is_ok()
    }

    /// Whether a packet is one that a client can read.
    pub fn accepts(&self, buf: &[u8]) -> (r: bool)
        ensures
            r == acceptable(self@, buf@),
    {
        if buf.len() == 0 {
            return false;
        }
        if buf[0] == msg::KEXINIT {
            return self.common.encrypted.is_some();
        }
        match &self.common.encrypted {
            Some(enc) => {
                match &enc.rekey {
                    None | Some(Kex::KexInit(_)) => {},
                    _ => {
                        return true;
                    },
                }
                match enc.state {
                    EncryptedState::InitCompression => false,
                    EncryptedState::Authenticated => self.can_read(buf),
                    _ => true,
                }
            },
            None => true,
        }
    }
}

} // verus!
