//! Authentication methods, method sets and their name-list encoding, and the
//! state of an authentication in progress.
use crate::codec::{parse_string, read_string};
use vstd::prelude::*;

verus! {

/// The set of authentication methods permitted or proposed.
#[derive(Debug, Clone, Copy, PartialEq, Eq, Structural)]
pub struct MethodSet {
    pub none: bool,
    pub password: bool,
    pub publickey: bool,
    pub hostbased: bool,
    pub keyboard_interactive: bool,
}

pub open spec fn name_none() -> Seq<u8> {
    seq![110u8, 111, 110, 101]
}

pub open spec fn name_password() -> Seq<u8> {
    seq![112u8, 97, 115, 115, 119, 111, 114, 100]
}

pub open spec fn name_publickey() -> Seq<u8> {
    seq![112u8, 117, 98, 108, 105, 99, 107, 101, 121]
}

pub open spec fn name_hostbased() -> Seq<u8> {
    seq![104u8, 111, 115, 116, 98, 97, 115, 101, 100]
}

pub open spec fn name_keyboard_interactive() -> Seq<u8> {
    seq![107u8, 101, 121, 98, 111, 97, 114, 100, 45, 105, 110, 116, 101, 114, 97, 99, 116, 105, 118, 101]
}

/// Appends `name` to a comma-separated list when `present`.
pub open spec fn list_step(acc: Seq<u8>, present: bool, name: Seq<u8>) -> Seq<u8> {
    if !present {
        acc
    } else if acc.len() == 0 {
        name
    } else {
        acc + seq![44u8] + name
    }
}

/// The comma-separated names of a method set, in the order none, password,
/// publickey, hostbased, keyboard-interactive.
pub open spec fn method_list(s: MethodSet) -> Seq<u8> {
    list_step(
        list_step(
            list_step(
                list_step(list_step(Seq::empty(), s.none, name_none()), s.password, name_password()),
                s.publickey,
                name_publickey(),
            ),
            s.hostbased,
            name_hostbased(),
        ),
        s.keyboard_interactive,
        name_keyboard_interactive(),
    )
}

/// `name` stands in the comma-separated list `b` as one of its items.
pub open spec fn is_item(b: Seq<u8>, name: Seq<u8>) -> bool {
    exists|i: int|
        0 <= i && i + name.len() <= b.len() && (i == 0 || b[i - 1] == 44u8) && (i + name.len()
            == b.len() || b[i + name.len()] == 44u8) && #[trigger] b.subrange(i, i + name.len())
            == name
}

/// The methods that a comma-separated list names; unknown names are ignored.
pub open spec fn parse_method_list(b: Seq<u8>) -> MethodSet {
    MethodSet {
        none: is_item(b, name_none()),
        password: is_item(b, name_password()),
        publickey: is_item(b, name_publickey()),
        hostbased: is_item(b, name_hostbased()),
        keyboard_interactive: is_item(b, name_keyboard_interactive()),
    }
}

pub(crate) fn name_none_bytes() -> (r: Vec<u8>)
    ensures
        r@ == name_none(),
{
    let r: Vec<u8> = vec![110u8, 111, 110, 101];
    r
}

pub(crate) fn name_password_bytes() -> (r: Vec<u8>)
    ensures
        r@ == name_password(),
{
    let r: Vec<u8> = vec![112u8, 97, 115, 115, 119, 111, 114, 100];
    r
}

pub(crate) fn name_publickey_bytes() -> (r: Vec<u8>)
    ensures
        r@ == name_publickey(),
{
    let r: Vec<u8> = vec![112u8, 117, 98, 108, 105, 99, 107, 101, 121];
    r
}

pub(crate) fn name_hostbased_bytes() -> (r: Vec<u8>)
    ensures
        r@ == name_hostbased(),
{
    let r: Vec<u8> = vec![104u8, 111, 115, 116, 98, 97, 115, 101, 100];
    r
}

pub(crate) fn name_keyboard_interactive_bytes() -> (r: Vec<u8>)
    ensures
        r@ == name_keyboard_interactive(),
{
    let r: Vec<u8> = vec![
        107u8, 101, 121, 98, 111, 97, 114, 100, 45, 105, 110, 116, 101, 114, 97, 99, 116, 105, 118, 101,
    ];
    r
}

fn append_item(acc: &mut Vec<u8>, present: bool, name: &[u8])
    ensures
        final(acc)@ == list_step(old(acc)@, present, name@),
{
    if present {
        if acc.len() == 0 {
            acc.extend_from_slice(name);
            assert(final(acc)@ =~= name@);
        } else {
            acc.push(44u8);
            acc.extend_from_slice(name);
            assert(final(acc)@ =~= old(acc)@ + seq![44u8] + name@);
        }
    }
}

/// Whether `name` stands in the comma-separated list `b`.
fn has_item(b: &[u8], name: &[u8]) -> (r: bool)
    requires
        name@.len() > 0,
    ensures
        r == is_item(b@, name@),
{
    let n = name.len();
    if n > b.len() {
        return false;
    }
    let mut i: usize = 0;
    while i <= b.len() - n
        invariant
            n == name@.len(),
            0 < n <= b@.len(),
            i <= b@.len() - n + 1,
            forall|k: int|
                0 <= k < i ==> !((k == 0 || b@[k - 1] == 44u8) && (k + n == b@.len() || b@[k + n]
                    == 44u8) && #[trigger] b@.subrange(k, k + n) == name@),
        decreases b@.len() + 1 - i,
    {
        let starts = i == 0 || b[i - 1] == 44u8;
        let ends = i + n == b.len() || b[i + n] == 44u8;
        if starts && ends {
            let mut j: usize = 0;
            let mut same = true;
            while j < n
                invariant
                    j <= n,
                    n == name@.len(),
                    i + n <= b@.len(),
                    b@.len() == b.len(),
                    same == (forall|t: int| 0 <= t < j ==> b@[i + t] == name@[t]),
                decreases n - j,
            {
                if b[i + j] != name[j] {
                    same = false;
                }
                j = j + 1;
            }
            if same {
                assert(b@.subrange(i as int, i + n) =~= name@);
                return true;
            }
            assert(b@.subrange(i as int, i + n) != name@) by {
                if b@.subrange(i as int, i + n) == name@ {
                    assert forall|t: int| 0 <= t < n implies b@[i + t] == name@[t] by {
                        assert(b@.subrange(i as int, i + n)[t] == b@[i + t]);
                    }
                }
            }
        }
        i = i + 1;
    }
    false
}

impl MethodSet {
    /// Every method.
    pub open spec fn all_spec() -> MethodSet {
        MethodSet { none: true, password: true, publickey: true, hostbased: true, keyboard_interactive: true }
    }

    pub fn all() -> (r: MethodSet)
        ensures
            r == MethodSet::all_spec(),
    {
        MethodSet { none: true, password: true, publickey: true, hostbased: true, keyboard_interactive: true }
    }

    /// No method.
    pub fn empty() -> (r: MethodSet)
        ensures
            r.is_empty_spec(),
    {
        MethodSet { none: false, password: false, publickey: false, hostbased: false, keyboard_interactive: false }
    }

    pub open spec fn is_empty_spec(&self) -> bool {
        !self.none && !self.password && !self.publickey && !self.hostbased && !self.keyboard_interactive
    }

    pub fn is_empty(&self) -> (r: bool)
        ensures
            r == self.is_empty_spec(),
    {
        !self.none && !self.password && !self.publickey && !self.hostbased && !self.keyboard_interactive
    }

    pub open spec fn without_password_spec(&self) -> MethodSet {
        MethodSet { password: false, ..*self }
    }

    /// The same set without password.
    pub fn without_password(&self) -> (r: MethodSet)
        ensures
            r == self.without_password_spec(),
    {
        MethodSet { password: false, ..*self }
    }

    /// The comma-separated names of the methods in the set.
    pub fn name_list(&self) -> (r: Vec<u8>)
        ensures
            r@ == method_list(*self),
    {
        let mut acc: Vec<u8> = Vec::new();
        append_item(&mut acc, self.none, name_none_bytes().as_slice());
        append_item(&mut acc, self.password, name_password_bytes().as_slice());
        append_item(&mut acc, self.publickey, name_publickey_bytes().as_slice());
        append_item(&mut acc, self.hostbased, name_hostbased_bytes().as_slice());
        append_item(&mut acc, self.keyboard_interactive, name_keyboard_interactive_bytes().as_slice());
        acc
    }

    /// The methods named in a comma-separated list; unknown names are ignored.
    pub fn from_name_list(b: &[u8]) -> (r: MethodSet)
        ensures
            r == parse_method_list(b@),
    {
        MethodSet {
            none: has_item(b, name_none_bytes().as_slice()),
            password: has_item(b, name_password_bytes().as_slice()),
            publickey: has_item(b, name_publickey_bytes().as_slice()),
            hostbased: has_item(b, name_hostbased_bytes().as_slice()),
            keyboard_interactive: has_item(b, name_keyboard_interactive_bytes().as_slice()),
        }
    }
}

/// An authentication decision.
#[derive(Debug, PartialEq, Eq)]
pub enum Auth {
    /// Reject the authentication request.
    Reject,
    /// Accept the authentication request.
    Accept,
    /// The method was not accepted, but no other check was performed.
    UnsupportedMethod,
    /// Partially accept a challenge-response request, with further
    /// instructions; each prompt says whether the typed characters echo.
    Partial { name: String, instructions: String, prompts: Vec<(String, bool)> },
}

/// The request that an authentication in progress is waiting on.
#[derive(Debug, Clone)]
pub enum CurrentRequest {
    PublicKey { key: Vec<u8>, algo: Vec<u8>, sent_pk_ok: bool },
    KeyboardInteractive { submethods: Vec<u8> },
}

/// The state of an authentication in progress.
#[derive(Debug, Clone)]
pub struct AuthRequest {
    pub methods: MethodSet,
    pub partial_success: bool,
    pub current: Option<CurrentRequest>,
    pub rejection_count: usize,
}

/// A client's responses in a challenge-response authentication, read one by
/// one from the packet that carried them.
#[derive(Debug, Clone)]
pub struct Response {
    pub buf: Vec<u8>,
    pub pos: usize,
    pub n: u32,
}

impl Response {
    /// The next response: none once `n` are read; a malformed one also
    /// counts as read, and yields none.
    pub fn next(&mut self) -> (r: Option<Vec<u8>>)
        ensures
            old(self).n == 0 ==> r.is_none() && *final(self) == *old(self),
            old(self).n > 0 ==> final(self).n == old(self).n - 1 && final(self).buf
                == old(self).buf && match (r, parse_string(old(self).buf@, old(self).pos as int)) {
                (Some(v), Some((s, p))) => v@ == s && final(self).pos == p,
                (None, None) => final(self).pos == old(self).pos,
                _ => false,
            },
    {
        if self.n == 0 {
            None
        } else {
            self.n = self.n - 1;
            match read_string(self.buf.as_slice(), self.pos) {
                Some((v, p)) => {
                    self.pos = p;
                    Some(v)
                },
                None => None,
            }
        }
    }
}

} // verus!
