//! User authentication: methods, the requests that ask for them, and the server's answers.
use crate::encoding::{same_bytes, ssh_string};
use crate::msg;
use crate::session::Transport;
use vstd::prelude::*;
use vstd::slice::slice_subrange;
use vstd::string::StringSliceAdditionalSpecFns;

verus! {

/// A set of authentication methods.
#[derive(Clone, Copy, Debug, PartialEq, Eq, Structural)]
pub struct MethodSet {
    pub none: bool,
    pub password: bool,
    pub publickey: bool,
    pub hostbased: bool,
    pub keyboard_interactive: bool,
}

/// `list[i..j]` is one of the parts that the commas of a list separate.
pub open spec fn is_part(list: Seq<u8>, i: int, j: int) -> bool {
    &&& 0 <= i <= j <= list.len()
    &&& i == 0 || list[i - 1] == 44u8
    &&& j == list.len() || list[j] == 44u8
    &&& forall|k: int| i <= k < j ==> list[k] != 44u8
}

/// One of the comma-separated parts of a list that ends before `end` is `name`.
pub open spec fn listed_before(list: Seq<u8>, name: Seq<u8>, end: int) -> bool {
    exists|i: int, j: int| #[trigger]
        is_part(list, i, j) && j < end && list.subrange(i, j) == name
}

/// One of the comma-separated parts of a list is `name`.
pub open spec fn listed(list: Seq<u8>, name: Seq<u8>) -> bool {
    exists|i: int, j: int| #[trigger] is_part(list, i, j) && list.subrange(i, j) == name
}

impl MethodSet {
    /// No method at all.
    pub open spec fn spec_empty() -> MethodSet {
        MethodSet {
            none: false,
            password: false,
            publickey: false,
            hostbased: false,
            keyboard_interactive: false,
        }
    }

    /// Every method.
    pub open spec fn spec_all() -> MethodSet {
        MethodSet {
            none: true,
            password: true,
            publickey: true,
            hostbased: true,
            keyboard_interactive: true,
        }
    }

    /// The methods among the comma-separated parts of a list that end before `end`.
    pub open spec fn listed_before(list: Seq<u8>, end: int) -> MethodSet {
        MethodSet {
            none: listed_before(list, "none".spec_bytes(), end),
            password: listed_before(list, "password".spec_bytes(), end),
            publickey: listed_before(list, "publickey".spec_bytes(), end),
            hostbased: listed_before(list, "hostbased".spec_bytes(), end),
            keyboard_interactive: listed_before(list, "keyboard-interactive".spec_bytes(), end),
        }
    }

    /// The methods that a comma-separated list names. Other names are skipped.
    pub open spec fn listed(list: Seq<u8>) -> MethodSet {
        MethodSet {
            none: listed(list, "none".spec_bytes()),
            password: listed(list, "password".spec_bytes()),
            publickey: listed(list, "publickey".spec_bytes()),
            hostbased: listed(list, "hostbased".spec_bytes()),
            keyboard_interactive: listed(list, "keyboard-interactive".spec_bytes()),
        }
    }

    /// The set without a method.
    pub fn empty() -> (r: MethodSet)
        ensures
            r == MethodSet::spec_empty(),
    {
        MethodSet {
            none: false,
            password: false,
            publickey: false,
            hostbased: false,
            keyboard_interactive: false,
        }
    }

    /// The set of all methods.
    pub fn all() -> (r: MethodSet)
        ensures
            r == MethodSet::spec_all(),
    {
        MethodSet {
            none: true,
            password: true,
            publickey: true,
            hostbased: true,
            keyboard_interactive: true,
        }
    }

    /// Whether the set holds no method.
    pub fn is_empty(&self) -> (r: bool)
        ensures
            r == (*self == MethodSet::spec_empty()),
    {
        !self.none && !self.password && !self.publickey && !self.hostbased
            && !self.keyboard_interactive
    }

    /// Adds to the set the method of that name, if there is one.
    fn add_named(&mut self, name: &[u8])
        ensures
            final(self).none == (old(self).none || name@ == "none".spec_bytes()),
            final(self).password == (old(self).password || name@ == "password".spec_bytes()),
            final(self).publickey == (old(self).publickey || name@ == "publickey".spec_bytes()),
            final(self).hostbased == (old(self).hostbased || name@ == "hostbased".spec_bytes()),
            final(self).keyboard_interactive == (old(self).keyboard_interactive || name@
                == "keyboard-interactive".spec_bytes()),
    {
        if same_bytes(name, "none".as_bytes()) {
            self.none = true;
        }
        if same_bytes(name, "password".as_bytes()) {
            self.password = true;
        }
        if same_bytes(name, "publickey".as_bytes()) {
            self.publickey = true;
        }
        if same_bytes(name, "hostbased".as_bytes()) {
            self.hostbased = true;
        }
        if same_bytes(name, "keyboard-interactive".as_bytes()) {
            self.keyboard_interactive = true;
        }
    }

    /// The methods that a comma-separated list names.
    pub fn from_list(list: &[u8]) -> (r: MethodSet)
        ensures
            r == MethodSet::listed(list@),
    {
        let mut methods = MethodSet::empty();
        let mut start: usize = 0;
        let mut i: usize = 0;
        let n: usize = list.len();
        assert(methods == MethodSet::listed_before(list@, 0));
        while i < n
            invariant
                start <= i <= n,
                n == list@.len(),
                start == 0 || list@[start - 1] == 44u8,
                forall|k: int| start <= k < i ==> list@[k] != 44u8,
                methods == MethodSet::listed_before(list@, i as int),
            decreases n - i,
        {
            if list[i] == 44u8 {
                methods.add_named(slice_subrange(list, start, i));
                proof {
                    lemma_one_part_more(list@, start as int, i as int);
                }
                start = i + 1;
            } else {
                proof {
                    lemma_no_part_more(list@, i as int);
                }
            }
            i = i + 1;
        }
        methods.add_named(slice_subrange(list, start, n));
        proof {
            lemma_one_part_more(list@, start as int, n as int);
            lemma_all_parts(list@, "none".spec_bytes());
            lemma_all_parts(list@, "password".spec_bytes());
            lemma_all_parts(list@, "publickey".spec_bytes());
            lemma_all_parts(list@, "hostbased".spec_bytes());
            lemma_all_parts(list@, "keyboard-interactive".spec_bytes());
        }
        methods
    }
}

/// Where a part ends, exactly one part ends.
proof fn lemma_one_part_more(list: Seq<u8>, start: int, end: int)
    requires
        is_part(list, start, end),
    ensures
        forall|name: Seq<u8>| #[trigger]
            listed_before(list, name, end + 1) == (listed_before(list, name, end) || list.subrange(
                start,
                end,
            ) == name),
{
    assert forall|name: Seq<u8>| #[trigger]
        listed_before(list, name, end + 1) == (listed_before(list, name, end) || list.subrange(
            start,
            end,
        ) == name) by {
        if listed_before(list, name, end + 1) {
            let (i, j) = choose|i: int, j: int| #[trigger]
                is_part(list, i, j) && j < end + 1 && list.subrange(i, j) == name;
            if j == end {
                assert(i == start) by {
                    if i < start {
                        assert(list[start - 1] != 44u8);
                    }
                    if start < i {
                        assert(list[i - 1] != 44u8);
                    }
                }
            } else {
                assert(is_part(list, i, j) && j < end);
            }
        }
    }
}

/// Where no comma stands, no part ends.
proof fn lemma_no_part_more(list: Seq<u8>, end: int)
    requires
        0 <= end < list.len(),
        list[end] != 44u8,
    ensures
        forall|name: Seq<u8>| #[trigger]
            listed_before(list, name, end + 1) == listed_before(list, name, end),
{
    assert forall|name: Seq<u8>| #[trigger]
        listed_before(list, name, end + 1) == listed_before(list, name, end) by {
        if listed_before(list, name, end + 1) {
            let (i, j) = choose|i: int, j: int| #[trigger]
                is_part(list, i, j) && j < end + 1 && list.subrange(i, j) == name;
            assert(is_part(list, i, j) && j < end);
        }
    }
}

/// Every part ends at the end of the list or before.
proof fn lemma_all_parts(list: Seq<u8>, name: Seq<u8>)
    ensures
        listed(list, name) == listed_before(list, name, list.len() as int + 1),
{
    if listed(list, name) {
        let (i, j) = choose|i: int, j: int| #[trigger]
            is_part(list, i, j) && list.subrange(i, j) == name;
        assert(is_part(list, i, j) && j < list.len() + 1);
    }
}

/// A request that the server has been asked to consider.
#[derive(Clone, Copy, Debug, PartialEq, Eq, Structural)]
pub enum CurrentRequest {
    PublicKey { sent_pk_ok: bool },
    KeyboardInteractive,
}

/// The state of an authentication.
#[derive(Clone, Copy, Debug, PartialEq, Eq, Structural)]
pub struct AuthRequest {
    pub methods: MethodSet,
    pub partial_success: bool,
    pub current: Option<CurrentRequest>,
    pub rejection_count: usize,
}

/// A public key: the name of its algorithm, and its encoding without the length in front.
pub struct PublicKey {
    pub name: String,
    pub blob: Vec<u8>,
}

/// A way to authenticate.
pub enum Method<T: Transport> {
    /// A password.
    Password { password: String },
    /// A key pair that signs here; `key` is its public half.
    PublicKey { key: PublicKey, pair: T::KeyPair },
    /// A public key whose owner signs on demand.
    FuturePublicKey { key: PublicKey },
}

/// The part that all the requests of a user have in common.
pub open spec fn request_head(user: Seq<char>, method: Seq<u8>) -> Seq<u8> {
    seq![msg::USERAUTH_REQUEST] + ssh_string(vstd::utf8::encode_utf8(user)) + ssh_string(
        "ssh-connection".spec_bytes(),
    ) + ssh_string(method)
}

/// A request with a public key. With `signed` unset it only asks whether the key would do;
/// with `signed` set a signature follows.
pub open spec fn key_request(user: Seq<char>, key: PublicKey, signed: bool) -> Seq<u8> {
    request_head(user, "publickey".spec_bytes()) + seq![
        if signed {
            1u8
        } else {
            0u8
        },
    ] + ssh_string(vstd::utf8::encode_utf8(key.name@)) + ssh_string(key.blob@)
}

/// A request with a password.
pub open spec fn password_request(user: Seq<char>, password: Seq<char>) -> Seq<u8> {
    request_head(user, "password".spec_bytes()) + seq![1u8] + ssh_string(
        vstd::utf8::encode_utf8(password),
    )
}

/// The request that opens the authentication of `user` by a method.
pub open spec fn auth_request<T: Transport>(user: Seq<char>, method: Method<T>) -> Seq<u8> {
    match method {
        Method::Password { password } => password_request(user, password@),
        Method::PublicKey { key, pair } => key_request(user, key, false),
        Method::FuturePublicKey { key } => key_request(user, key, false),
    }
}

/// What is signed for a public key: the session identifier, then the request.
pub open spec fn to_sign(session_id: Seq<u8>, user: Seq<char>, key: PublicKey) -> Seq<u8> {
    ssh_string(session_id) + key_request(user, key, true)
}

/// A list without a comma names the one method that it spells.
pub proof fn law_one_method_listed(list: Seq<u8>)
    requires
        forall|i: int| 0 <= i < list.len() ==> list[i] != 44u8,
    ensures
        ({
            let m = MethodSet::listed(list);
            &&& m.none <==> list == "none".spec_bytes()
            &&& m.password <==> list == "password".spec_bytes()
            &&& m.publickey <==> list == "publickey".spec_bytes()
            &&& m.hostbased <==> list == "hostbased".spec_bytes()
            &&& m.keyboard_interactive <==> list == "keyboard-interactive".spec_bytes()
        }),
{
    assert forall|name: Seq<u8>| #[trigger] listed(list, name) == (list == name) by {
        assert(is_part(list, 0, list.len() as int));
        assert(list.subrange(0, list.len() as int) =~= list);
        if listed(list, name) {
            let (i, j) = choose|i: int, j: int| #[trigger]
                is_part(list, i, j) && list.subrange(i, j) == name;
            assert(i == 0 && j == list.len());
        }
    }
}

/// A comma joins two lists: together they name what either names.
pub proof fn law_lists_joined(first: Seq<u8>, second: Seq<u8>)
    ensures
        ({
            let m = MethodSet::listed(first + seq![44u8] + second);
            let (a, b) = (MethodSet::listed(first), MethodSet::listed(second));
            &&& m.none == (a.none || b.none)
            &&& m.password == (a.password || b.password)
            &&& m.publickey == (a.publickey || b.publickey)
            &&& m.hostbased == (a.hostbased || b.hostbased)
            &&& m.keyboard_interactive == (a.keyboard_interactive || b.keyboard_interactive)
        }),
{
    lemma_listed_joined(first, second, "none".spec_bytes());
    lemma_listed_joined(first, second, "password".spec_bytes());
    lemma_listed_joined(first, second, "publickey".spec_bytes());
    lemma_listed_joined(first, second, "hostbased".spec_bytes());
    lemma_listed_joined(first, second, "keyboard-interactive".spec_bytes());
}

/// The parts of two joined lists are the parts of each.
proof fn lemma_listed_joined(first: Seq<u8>, second: Seq<u8>, name: Seq<u8>)
    ensures
        listed(first + seq![44u8] + second, name) == (listed(first, name) || listed(second, name)),
{
    let all = first + seq![44u8] + second;
    let n = first.len() as int;
    assert(all[n] == 44u8);
    if listed(all, name) {
        let (i, j) = choose|i: int, j: int| #[trigger]
            is_part(all, i, j) && all.subrange(i, j) == name;
        if j <= n {
            assert forall|k: int| i <= k < j implies first[k] != 44u8 by {
                assert(first[k] == all[k]);
            }
            assert(i == 0 || first[i - 1] == all[i - 1]);
            assert(j == n || first[j] == all[j]);
            assert(is_part(first, i, j));
            assert(first.subrange(i, j) =~= all.subrange(i, j));
        } else {
            assert(i > n);
            assert forall|k: int| i - n - 1 <= k < j - n - 1 implies second[k] != 44u8 by {
                assert(second[k] == all[k + n + 1]);
            }
            assert(i - n - 1 == 0 || second[i - n - 2] == all[i - 1]);
            assert(j == all.len() || second[j - n - 1] == all[j]);
            assert(is_part(second, i - n - 1, j - n - 1));
            assert(second.subrange(i - n - 1, j - n - 1) =~= all.subrange(i, j));
        }
    }
    if listed(first, name) {
        let (i, j) = choose|i: int, j: int| #[trigger]
            is_part(first, i, j) && first.subrange(i, j) == name;
        assert(is_part(all, i, j));
        assert(first.subrange(i, j) =~= all.subrange(i, j));
    }
    if listed(second, name) {
        let (i, j) = choose|i: int, j: int| #[trigger]
            is_part(second, i, j) && second.subrange(i, j) == name;
        assert forall|k: int| i + n + 1 <= k < j + n + 1 implies all[k] != 44u8 by {
            assert(all[k] == second[k - n - 1]);
        }
        assert(i == 0 || all[i + n] == second[i - 1]);
        assert(j == second.len() || all[j + n + 1] == second[j]);
        assert(is_part(all, i + n + 1, j + n + 1));
        assert(second.subrange(i, j) =~= all.subrange(i + n + 1, j + n + 1));
    }
}

} // verus!
