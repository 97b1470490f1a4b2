//! The plain descriptions of a request and of a response that the dispatcher
//! works on.

use vstd::prelude::*;

use crate::http::{
    header_name, is_header_name, is_header_value, is_text, lower_case, lowered,
};
use crate::text::string_of;

verus! {

/// An incoming request. Header names are found whatever the case of their
/// letters; header values are raw bytes.
#[derive(Clone, Debug, PartialEq, Eq)]
pub struct Request {
    pub method: String,
    pub path: String,
    /// What follows the question mark of the target, if there is one.
    pub query: Option<String>,
    pub headers: Vec<(String, Vec<u8>)>,
    pub body: Vec<u8>,
}

/// The response to send back.
#[derive(Clone, Debug, PartialEq, Eq)]
pub struct Response {
    pub status: u16,
    pub headers: Vec<(String, String)>,
    pub body: Vec<u8>,
}

/// What a [`Response`] holds, as plain sequences.
pub struct ResponseView {
    pub status: u16,
    pub headers: Seq<(Seq<char>, Seq<char>)>,
    pub body: Seq<u8>,
}

impl View for Response {
    type V = ResponseView;

    open spec fn view(&self) -> ResponseView {
        ResponseView {
            status: self.status,
            headers: Seq::new(
                self.headers@.len(),
                |i: int| (self.headers@[i].0@, self.headers@[i].1@),
            ),
            body: self.body@,
        }
    }
}

/// The bytes as characters, one for one.
pub open spec fn text_of(bytes: Seq<u8>) -> Seq<char> {
    Seq::new(bytes.len(), |i: int| bytes[i] as char)
}

/// The value of the first header whose name in lower case is `name`.
pub open spec fn first_value(headers: Seq<(String, Vec<u8>)>, name: Seq<char>) -> Option<Seq<u8>>
    decreases headers.len(),
{
    if headers.len() == 0 {
        None
    } else if lowered(headers[0].0@) == name {
        Some(headers[0].1@)
    } else {
        first_value(headers.skip(1), name)
    }
}

/// The value of the first header called `name`, whatever the case of its
/// letters; `None` when `name` cannot name a header.
pub open spec fn header_value(headers: Seq<(String, Vec<u8>)>, name: Seq<char>) -> Option<Seq<u8>> {
    if is_header_name(name) {
        first_value(headers, lowered(name))
    } else {
        None
    }
}

/// The name of the header that carries cookies.
pub open spec fn cookie_header() -> Seq<char> {
    "cookie"@
}

/// The values of the `cookie` headers that are text, in order.
pub open spec fn cookie_texts(headers: Seq<(String, Vec<u8>)>) -> Seq<Seq<char>>
    decreases headers.len(),
{
    if headers.len() == 0 {
        Seq::empty()
    } else if lowered(headers.last().0@) == cookie_header() && is_text(headers.last().1@) {
        cookie_texts(headers.drop_last()).push(text_of(headers.last().1@))
    } else {
        cookie_texts(headers.drop_last())
    }
}

/// The bytes as a string, when they are all printable ASCII or tabs.
pub fn text_of_bytes(bytes: &Vec<u8>) -> (r: Option<String>)
    ensures
        r is Some <==> is_text(bytes@),
        r matches Some(s) ==> s@ == text_of(bytes@) && is_header_value(s@),
{
    let mut chars: Vec<char> = Vec::new();
    let mut i: usize = 0;
    while i < bytes.len()
        invariant
            i <= bytes.len(),
            is_text(bytes@.take(i as int)),
            chars@ == text_of(bytes@.take(i as int)),
        decreases bytes.len() - i,
    {
        let b = bytes[i];
        if !((32 <= b && b < 127) || b == 9) {
            return None;
        }
        chars.push(b as char);
        assert(chars@ =~= text_of(bytes@.take(i + 1)));
        i += 1;
    }
    assert(bytes@.take(i as int) == bytes@);
    Some(string_of(&chars))
}

impl Request {
    /// The value of the first header called `name`.
    pub fn header(&self, name: &str) -> (r: Option<&Vec<u8>>)
        ensures
            match r {
                Some(v) => header_value(self.headers@, name@) == Some(v@),
                None => header_value(self.headers@, name@) is None,
            },
    {
        let normal = match header_name(name) {
            Ok(n) => n,
            Err(_) => {
                return None;
            },
        };
        let mut i: usize = 0;
        assert(self.headers@.skip(0) == self.headers@);
        while i < self.headers.len()
            invariant
                i <= self.headers.len(),
                is_header_name(name@),
                normal@ == lowered(name@),
                first_value(self.headers@, normal@) == first_value(
                    self.headers@.skip(i as int),
                    normal@,
                ),
            decreases self.headers.len() - i,
        {
            assert(self.headers@.skip(i as int)[0] == self.headers@[i as int]);
            if lower_case(&self.headers[i].0) == normal {
                assert(lowered(self.headers@[i as int].0@) == normal@);
                assert(first_value(self.headers@.skip(i as int), normal@) == Some(
                    self.headers@[i as int].1@,
                ));
                return Some(&self.headers[i].1);
            }
            assert(self.headers@.skip(i as int).skip(1) == self.headers@.skip(i + 1));
            i += 1;
        }
        None
    }

    /// The values of the `cookie` headers that are text, in order.
    pub fn cookie_headers(&self) -> (r: Vec<String>)
        ensures
            r.deep_view() == cookie_texts(self.headers@),
            forall|i: int| 0 <= i < r@.len() ==> is_header_value((#[trigger] r@[i])@),
    {
        let key = "cookie".to_string();
        let mut out: Vec<String> = Vec::new();
        let mut i: usize = 0;
        assert(out.deep_view() =~= cookie_texts(self.headers@.take(0)));
        while i < self.headers.len()
            invariant
                i <= self.headers.len(),
                key@ == cookie_header(),
                out.deep_view() == cookie_texts(self.headers@.take(i as int)),
                forall|k: int| 0 <= k < out@.len() ==> is_header_value((#[trigger] out@[k])@),
            decreases self.headers.len() - i,
        {
            assert(self.headers@.take(i + 1).drop_last() == self.headers@.take(i as int));
            if lower_case(&self.headers[i].0) == key {
                if let Some(text) = text_of_bytes(&self.headers[i].1) {
                    let ghost before = out.deep_view();
                    out.push(text);
                    assert(out.deep_view() =~= before.push(text@));
                }
            }
            i += 1;
        }
        assert(self.headers@.take(i as int) == self.headers@);
        out
    }
}

} // verus!
