//! The request methods a run can use.

use vstd::prelude::*;
use vstd::string::*;

verus! {

/// The request methods on offer.
#[derive(Clone, Copy, Debug, PartialEq, Eq, Structural)]
pub enum HttpMethods {
    GET,
    HEAD,
    POST,
    PUT,
    DELETE,
}

/// The ASCII upper-case form of `byte`; other bytes stay as they are.
pub open spec fn upper(byte: u8) -> u8 {
    if 0x61 <= byte <= 0x7a {
        (byte - 0x20) as u8
    } else {
        byte
    }
}

/// Whether two texts agree byte for byte once ASCII letters are put in
/// upper case.
pub open spec fn same_ignoring_case(a: Seq<u8>, b: Seq<u8>) -> bool {
    a.len() == b.len() && forall|i: int| 0 <= i < a.len() ==> upper(#[trigger] a[i]) == upper(b[i])
}

impl HttpMethods {
    /// The bytes of the method's name, in upper case.
    pub open spec fn name_bytes(self) -> Seq<u8> {
        match self {
            HttpMethods::GET => seq![0x47u8, 0x45u8, 0x54u8],
            HttpMethods::HEAD => seq![0x48u8, 0x45u8, 0x41u8, 0x44u8],
            HttpMethods::POST => seq![0x50u8, 0x4fu8, 0x53u8, 0x54u8],
            HttpMethods::PUT => seq![0x50u8, 0x55u8, 0x54u8],
            HttpMethods::DELETE => seq![0x44u8, 0x45u8, 0x4cu8, 0x45u8, 0x54u8, 0x45u8],
        }
    }

    /// The method that `text` names, letter case aside, if it names one.
    pub open spec fn named(text: Seq<u8>) -> Option<HttpMethods> {
        if same_ignoring_case(text, HttpMethods::GET.name_bytes()) {
            Some(HttpMethods::GET)
        } else if same_ignoring_case(text, HttpMethods::HEAD.name_bytes()) {
            Some(HttpMethods::HEAD)
        } else if same_ignoring_case(text, HttpMethods::POST.name_bytes()) {
            Some(HttpMethods::POST)
        } else if same_ignoring_case(text, HttpMethods::PUT.name_bytes()) {
            Some(HttpMethods::PUT)
        } else if same_ignoring_case(text, HttpMethods::DELETE.name_bytes()) {
            Some(HttpMethods::DELETE)
        } else {
            None
        }
    }

    /// The method's name, in upper case.
    pub fn name(&self) -> (name: &'static str)
        ensures
            name.spec_bytes() == self.name_bytes(),
    {
        broadcast use is_ascii_spec_bytes;

        proof {
            reveal_strlit("GET");
            reveal_strlit("HEAD");
            reveal_strlit("POST");
            reveal_strlit("PUT");
            reveal_strlit("DELETE");
        }
        let name: &'static str = match self {
            HttpMethods::GET => "GET",
            HttpMethods::HEAD => "HEAD",
            HttpMethods::POST => "POST",
            HttpMethods::PUT => "PUT",
            HttpMethods::DELETE => "DELETE",
        };
        assert(is_ascii(name));
        name
    }

    /// Finds the method that `name` names. Letter case does not matter.
    pub fn from_name(name: &str) -> (method: Option<HttpMethods>)
        ensures
            method == HttpMethods::named(name.spec_bytes()),
    {
        let text: &[u8] = name.as_bytes();
        if matches_name(text, HttpMethods::GET) {
            Some(HttpMethods::GET)
        } else if matches_name(text, HttpMethods::HEAD) {
            Some(HttpMethods::HEAD)
        } else if matches_name(text, HttpMethods::POST) {
            Some(HttpMethods::POST)
        } else if matches_name(text, HttpMethods::PUT) {
            Some(HttpMethods::PUT)
        } else if matches_name(text, HttpMethods::DELETE) {
            Some(HttpMethods::DELETE)
        } else {
            None
        }
    }
}

/// Puts an ASCII letter in upper case.
fn to_upper(byte: u8) -> (up: u8)
    ensures
        up == upper(byte),
{
    if 0x61 <= byte && byte <= 0x7a {
        byte - 0x20
    } else {
        byte
    }
}

/// Whether `text` is the name of `method`, letter case aside.
fn matches_name(text: &[u8], method: HttpMethods) -> (same: bool)
    ensures
        same == same_ignoring_case(text@, method.name_bytes()),
{
    let name: &[u8] = method.name().as_bytes();
    if text.len() != name.len() {
        return false;
    }
    let mut i: usize = 0;
    while i < text.len()
        invariant
            i <= text@.len() == name@.len(),
            name@ == method.name_bytes(),
            forall|j: int| 0 <= j < i ==> upper(#[trigger] text@[j]) == upper(name@[j]),
        decreases text.len() - i,
    {
        if to_upper(text[i]) != to_upper(name[i]) {
            return false;
        }
        i = i + 1;
    }
    true
}

} // verus!
