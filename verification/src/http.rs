//! What the library takes from the HTTP crates: which methods, status codes,
//! header names and header values exist, and how cookies are read.

use vstd::prelude::*;

use axum::http::header::COOKIE;
use axum::http::{HeaderMap, HeaderName, HeaderValue, Method, StatusCode};
use axum::routing::MethodFilter;
use axum_extra::extract::CookieJar;
use std::str::FromStr;

use crate::text::{chars_of, string_of};

verus! {

/// The characters of an HTTP token: letters, digits and fifteen signs.
pub open spec fn is_token_char(c: char) -> bool {
    ||| ('a' <= c && c <= 'z')
    ||| ('A' <= c && c <= 'Z')
    ||| ('0' <= c && c <= '9')
    ||| c == '!'
    ||| c == '#'
    ||| c == '$'
    ||| c == '%'
    ||| c == '&'
    ||| c == '\''
    ||| c == '*'
    ||| c == '+'
    ||| c == '-'
    ||| c == '.'
    ||| c == '^'
    ||| c == '_'
    ||| c == '`'
    ||| c == '|'
    ||| c == '~'
}

/// A non-empty run of token characters.
pub open spec fn is_token(s: Seq<char>) -> bool {
    s.len() >= 1 && forall|i: int| 0 <= i < s.len() ==> is_token_char(#[trigger] s[i])
}

/// The lower-case form of an ASCII letter; any other character unchanged.
pub open spec fn lower(c: char) -> char {
    if 'A' <= c && c <= 'Z' {
        ((c as u32) + 32) as char
    } else {
        c
    }
}

/// `s` with its ASCII letters in lower case.
pub open spec fn lowered(s: Seq<char>) -> Seq<char> {
    Seq::new(s.len(), |i: int| lower(s[i]))
}

/// The name in lower case.
pub fn lower_case(name: &String) -> (r: String)
    ensures
        r@ == lowered(name@),
{
    let chars = chars_of(name.as_str());
    let mut lower: Vec<char> = Vec::new();
    let mut i: usize = 0;
    while i < chars.len()
        invariant
            i <= chars.len(),
            chars@ == name@,
            lower@ == lowered(chars@.take(i as int)),
        decreases chars.len() - i,
    {
        let c = chars[i];
        if 'A' <= c && c <= 'Z' {
            lower.push(((c as u8) + 32) as char);
        } else {
            lower.push(c);
        }
        i += 1;
        assert(lower@ =~= lowered(chars@.take(i as int)));
    }
    assert(chars@.take(i as int) == chars@);
    string_of(&lower)
}

/// The longest header name, in bytes.
pub const MAX_HEADER_NAME: usize = 65535;

/// Whether `s` can name a header.
pub open spec fn is_header_name(s: Seq<char>) -> bool {
    is_token(s) && s.len() <= MAX_HEADER_NAME
}

/// Whether `code` can be the status of a response.
pub open spec fn is_status_code(code: u16) -> bool {
    100 <= code <= 999
}

/// Whether a header value may hold `c`: a tab, or anything from the space on
/// but the delete character.
pub open spec fn is_value_char(c: char) -> bool {
    c == '\t' || (c >= ' ' && c != '\u{7f}')
}

/// Whether `s` can be the value of a header.
pub open spec fn is_header_value(s: Seq<char>) -> bool {
    forall|i: int| 0 <= i < s.len() ==> is_value_char(#[trigger] s[i])
}

/// Whether requests with this method can be routed: the nine methods a
/// route can filter on.
pub open spec fn is_routable(method: Seq<char>) -> bool {
    ||| method == "CONNECT"@
    ||| method == "DELETE"@
    ||| method == "GET"@
    ||| method == "HEAD"@
    ||| method == "OPTIONS"@
    ||| method == "PATCH"@
    ||| method == "POST"@
    ||| method == "PUT"@
    ||| method == "TRACE"@
}

/// The value of the cookie `name` in a jar filled from the given `Cookie`
/// header values, or `None` when the jar has no such cookie.
pub uninterp spec fn cookie_in_jar(headers: Seq<Seq<char>>, name: Seq<char>) -> Option<Seq<char>>;

/// Whether a status code exists.
///
/// Trusted: `StatusCode::from_u16` accepts exactly the codes from 100 to 999.
#[verifier::external_body]
pub(crate) fn status_code_exists(code: u16) -> (r: bool)
    ensures
        r == is_status_code(code),
{
    StatusCode::from_u16(code).is_ok()
}

/// Whether a method name is well formed.
///
/// Trusted: `Method::from_str` accepts exactly the non-empty names made of
/// token characters.
#[verifier::external_body]
pub(crate) fn method_exists(method: &str) -> (r: bool)
    ensures
        r == is_token(method@),
{
    Method::from_str(method).is_ok()
}

/// What is said of a method that no route can filter on.
pub uninterp spec fn method_filter_error(method: Seq<char>) -> Seq<char>;

/// Why no route can filter on the method, or `None` when one can.
///
/// Trusted: `MethodFilter::try_from` accepts the nine methods listed in
/// [`is_routable`] and no other, and `Method::from_str` reads each of the
/// nine. What either says of another text is named, not described.
#[verifier::external_body]
pub(crate) fn method_filter_refusal(method: &str) -> (r: Option<String>)
    ensures
        match r {
            None => is_routable(method@),
            Some(m) => !is_routable(method@) && m@ == method_filter_error(method@),
        },
{
    match Method::from_str(method) {
        Ok(m) => MethodFilter::try_from(m).err().map(|e| e.to_string()),
        Err(e) => Some(e.to_string()),
    }
}

/// What is said of a text that cannot name a header.
pub uninterp spec fn header_name_error(name: Seq<char>) -> Seq<char>;

/// The normal form of a header name, or why it is no header name.
///
/// Trusted: `HeaderName::from_str` accepts the names of 1 to 65535 token
/// characters and gives them in lower case. What it says of another text
/// is named, not described.
#[verifier::external_body]
pub(crate) fn header_name(name: &str) -> (r: Result<String, String>)
    ensures
        match r {
            Ok(n) => is_header_name(name@) && n@ == lowered(name@),
            Err(m) => !is_header_name(name@) && m@ == header_name_error(name@),
        },
{
    match HeaderName::from_str(name) {
        Ok(n) => Ok(n.as_str().to_string()),
        Err(e) => Err(e.to_string()),
    }
}

/// What is said of a text that cannot be the value of a header.
pub uninterp spec fn header_value_error(value: Seq<char>) -> Seq<char>;

/// Why `value` cannot be the value of a header, or `None` when it can.
///
/// Trusted: `HeaderValue::from_str` refuses exactly the texts that hold a
/// control character other than the tab. What it says of them is named, not
/// described.
#[verifier::external_body]
pub(crate) fn header_value_refusal(value: &str) -> (r: Option<String>)
    ensures
        match r {
            None => is_header_value(value@),
            Some(m) => !is_header_value(value@) && m@ == header_value_error(value@),
        },
{
    HeaderValue::from_str(value).err().map(|e| e.to_string())
}

/// Whether the byte is a printable ASCII character or a tab.
pub open spec fn is_visible_ascii(b: u8) -> bool {
    (32 <= b && b < 127) || b == 9
}

/// Whether all the bytes are printable ASCII characters or tabs.
pub open spec fn is_text(bytes: Seq<u8>) -> bool {
    forall|i: int| 0 <= i < bytes.len() ==> is_visible_ascii(#[trigger] bytes[i])
}

/// What is said of the value of a header that is no text.
pub uninterp spec fn header_text_error(bytes: Seq<u8>) -> Seq<char>;

/// Why the value of a header is no text, or `None` when it is.
///
/// Trusted: `HeaderValue::from_bytes` refuses the bytes that hold a control
/// character other than the tab, and `HeaderValue::to_str` those that hold a
/// byte that is no printable ASCII character and no tab. What either says
/// is named, not described.
#[verifier::external_body]
pub(crate) fn header_text_refusal(bytes: &Vec<u8>) -> (r: Option<String>)
    ensures
        match r {
            None => is_text(bytes@),
            Some(m) => !is_text(bytes@) && m@ == header_text_error(bytes@),
        },
{
    match HeaderValue::from_bytes(bytes) {
        Ok(v) => v.to_str().err().map(|e| e.to_string()),
        Err(e) => Some(e.to_string()),
    }
}

/// The value of the cookie `name` among the given `Cookie` header values.
///
/// Trusted: fills a header map with the values, in order, reads it with
/// `CookieJar::from_headers`, looks the name up with `CookieJar::get` and
/// takes `Cookie::value_trimmed`. The result is named, not described.
#[verifier::external_body]
pub(crate) fn cookie_value(cookie_headers: &Vec<String>, name: &str) -> (r: Option<String>)
    requires
        forall|i: int|
            0 <= i < cookie_headers@.len() ==> is_header_value((#[trigger] cookie_headers@[i])@),
    ensures
        match r {
            Some(v) => cookie_in_jar(cookie_headers.deep_view(), name@) == Some(v@),
            None => cookie_in_jar(cookie_headers.deep_view(), name@) is None,
        },
{
    let mut headers = HeaderMap::new();
    for value in cookie_headers {
        headers.append(COOKIE, HeaderValue::from_str(value).unwrap());
    }
    CookieJar::from_headers(&headers).get(name).map(|c| c.value_trimmed().to_string())
}

} // verus!
