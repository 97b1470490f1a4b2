//! Compiled entries: what a request must satisfy, and the response it gets.

use vstd::prelude::*;
use vstd::utf8::encode_utf8;

pub mod source;

use crate::asserts::{
    compiled_assert, compiled_header, Assert, AssertCompilationError, AssertView,
    CompilationErrorView,
};
use crate::ast;
use crate::http::{
    header_name, header_name_error, header_value_error, header_value_refusal, is_header_name,
    is_header_value, is_status_code, is_token, lowered, method_exists, status_code_exists,
};
use crate::request::{Request, Response, ResponseView};
use crate::template::{compiled_template, is_compiled_from, unknown_variable, StringOrTemplate};
use crate::text::{chars_of, concat, decimal_text, push_decimal, string_of};

verus! {

/// Why an entry of the source cannot be compiled.
#[derive(Debug, PartialEq, Eq)]
pub enum EntryCompilationError {
    InvalidStatusCode(u16),
    InvalidMethod(String),
    InvalidHeaderName(String),
    AssertCompilationError(AssertCompilationError),
    NotYetImplemented(String),
}

/// What an [`EntryCompilationError`] holds, as plain sequences.
pub enum EntryErrorView {
    InvalidStatusCode(u16),
    InvalidMethod(Seq<char>),
    InvalidHeaderName(Seq<char>),
    AssertCompilationError(CompilationErrorView),
    NotYetImplemented(Seq<char>),
}

impl View for EntryCompilationError {
    type V = EntryErrorView;

    open spec fn view(&self) -> EntryErrorView {
        match self {
            EntryCompilationError::InvalidStatusCode(c) => EntryErrorView::InvalidStatusCode(*c),
            EntryCompilationError::InvalidMethod(m) => EntryErrorView::InvalidMethod(m@),
            EntryCompilationError::InvalidHeaderName(m) => EntryErrorView::InvalidHeaderName(m@),
            EntryCompilationError::AssertCompilationError(e) => EntryErrorView::AssertCompilationError(
                e@,
            ),
            EntryCompilationError::NotYetImplemented(m) => EntryErrorView::NotYetImplemented(m@),
        }
    }
}

impl EntryErrorView {
    /// The message of the error.
    pub open spec fn message(self) -> Seq<char> {
        match self {
            EntryErrorView::InvalidStatusCode(c) => "invalid status code: "@ + decimal_text(
                c as nat,
            ),
            EntryErrorView::InvalidMethod(m) => "invalid method: "@ + m,
            EntryErrorView::NotYetImplemented(m) => "not yet implemented: "@ + m,
            EntryErrorView::InvalidHeaderName(m) => "invalid header name: "@ + m,
            EntryErrorView::AssertCompilationError(e) => "invalid assert: "@ + e.message(),
        }
    }
}

impl EntryCompilationError {
    /// The message of the error.
    pub fn to_string(&self) -> (r: String)
        ensures
            r@ == self@.message(),
    {
        match self {
            EntryCompilationError::InvalidStatusCode(status_code) => {
                let mut out = chars_of("invalid status code: ");
                push_decimal(&mut out, *status_code as u64);
                string_of(&out)
            },
            EntryCompilationError::InvalidMethod(method) => concat(
                "invalid method: ",
                method.as_str(),
            ),
            EntryCompilationError::NotYetImplemented(message) => concat(
                "not yet implemented: ",
                message.as_str(),
            ),
            EntryCompilationError::InvalidHeaderName(e) => concat(
                "invalid header name: ",
                e.as_str(),
            ),
            EntryCompilationError::AssertCompilationError(e) => concat(
                "invalid assert: ",
                e.to_string().as_str(),
            ),
        }
    }
}

/// An entry of the source, compiled.
#[derive(Debug, PartialEq, Eq)]
pub struct Entry {
    pub path: String,
    pub method: String,
    pub asserts: Vec<Assert>,
    pub status_code: u16,
    pub headers: Vec<(String, StringOrTemplate)>,
    pub body: Option<StringOrTemplate>,
}

/// What an [`Entry`] holds: its conditions, and what each template of its
/// response renders to.
pub struct EntryView {
    pub path: Seq<char>,
    pub method: Seq<char>,
    pub asserts: Seq<AssertView>,
    pub status_code: u16,
    pub headers: Seq<(Seq<char>, Result<Seq<char>, Seq<char>>)>,
    pub body: Option<Result<Seq<char>, Seq<char>>>,
}

/// The views of a list of conditions.
pub open spec fn asserts_view(asserts: Seq<Assert>) -> Seq<AssertView> {
    Seq::new(asserts.len(), |i: int| asserts[i]@)
}

/// The names of a list of headers, each with what its value renders to.
pub open spec fn headers_view(headers: Seq<(String, StringOrTemplate)>) -> Seq<
    (Seq<char>, Result<Seq<char>, Seq<char>>),
> {
    Seq::new(headers.len(), |i: int| (headers[i].0@, headers[i].1.rendering()))
}

impl View for Entry {
    type V = EntryView;

    open spec fn view(&self) -> EntryView {
        EntryView {
            path: self.path@,
            method: self.method@,
            asserts: asserts_view(self.asserts@),
            status_code: self.status_code,
            headers: headers_view(self.headers@),
            body: match self.body {
                Some(b) => Some(b.rendering()),
                None => None,
            },
        }
    }
}

/// The status of a response that could not be built.
pub const INTERNAL_SERVER_ERROR: u16 = 500;

/// The response that reports why a template could not be rendered.
pub open spec fn template_error(message: Seq<char>) -> ResponseView {
    ResponseView {
        status: INTERNAL_SERVER_ERROR,
        headers: Seq::empty(),
        body: encode_utf8("template error: "@ + message),
    }
}

/// What is said of a failure while a header is built.
pub open spec fn internal_error(message: Seq<char>) -> Seq<char> {
    "internal error: "@ + message
}

/// The headers of the response, each rendered in turn, or what is said of
/// the first that cannot be built.
pub open spec fn rendered_headers(headers: Seq<(Seq<char>, Result<Seq<char>, Seq<char>>)>) -> Result<
    Seq<(Seq<char>, Seq<char>)>,
    Seq<char>,
>
    decreases headers.len(),
{
    if headers.len() == 0 {
        Ok(Seq::empty())
    } else {
        match rendered_headers(headers.drop_last()) {
            Err(message) => Err(message),
            Ok(prefix) => match headers.last().1 {
                Err(name) => Err(internal_error(unknown_variable(name))),
                Ok(value) => if is_header_value(value) {
                    Ok(prefix.push((headers.last().0, value)))
                } else {
                    Err(internal_error(header_value_error(value)))
                },
            },
        }
    }
}

impl EntryView {
    /// Whether every condition of the entry can be evaluated.
    pub open spec fn is_supported(self) -> bool {
        forall|i: int| 0 <= i < self.asserts.len() ==> (#[trigger] self.asserts[i]).is_supported()
    }

    /// Whether the request meets every condition of the entry.
    pub open spec fn matches(self, request: &Request) -> bool {
        forall|i: int| 0 <= i < self.asserts.len() ==> (#[trigger] self.asserts[i]).passes(request)
    }

    /// The response of the entry: its status, its headers rendered in turn
    /// and its body rendered, or the report of the first template that
    /// cannot be rendered.
    pub open spec fn response(self) -> ResponseView {
        match rendered_headers(self.headers) {
            Err(message) => template_error(message),
            Ok(headers) => match self.body {
                None => ResponseView { status: self.status_code, headers, body: Seq::empty() },
                Some(Ok(text)) => ResponseView {
                    status: self.status_code,
                    headers,
                    body: encode_utf8(text),
                },
                Some(Err(name)) => template_error(unknown_variable(name)),
            },
        }
    }
}

/// The asserts of the first `[Asserts]` section.
pub open spec fn section_asserts(sections: Seq<ast::RequestSection>) -> Seq<ast::Assert>
    decreases sections.len(),
{
    if sections.len() == 0 {
        Seq::empty()
    } else {
        match sections[0].value {
            ast::RequestSectionValue::Asserts(asserts) => asserts@,
            _ => section_asserts(sections.skip(1)),
        }
    }
}

/// What is said of a condition that cannot be evaluated.
pub open spec fn unsupported_assert(a: AssertView) -> Seq<char> {
    if a.query is Body {
        "body query"@
    } else if a.query is Jsonpath {
        "jsonpath query"@
    } else {
        "big integer operand"@
    }
}

/// The conditions that the asserts of a section compile to, in order, or the
/// error of the first that cannot be compiled or evaluated.
pub open spec fn compiled_asserts(asserts: Seq<ast::Assert>) -> Result<
    Seq<AssertView>,
    EntryErrorView,
>
    decreases asserts.len(),
{
    if asserts.len() == 0 {
        Ok(Seq::empty())
    } else {
        match compiled_asserts(asserts.drop_last()) {
            Err(e) => Err(e),
            Ok(prefix) => match compiled_assert(asserts.last()) {
                Err(e) => Err(EntryErrorView::AssertCompilationError(e)),
                Ok(a) => if a.is_supported() {
                    Ok(prefix.push(a))
                } else {
                    Err(EntryErrorView::NotYetImplemented(unsupported_assert(a)))
                },
            },
        }
    }
}

/// The conditions that the header lines of a request compile to.
pub open spec fn header_asserts(headers: Seq<ast::Header>) -> Seq<AssertView> {
    Seq::new(headers.len(), |i: int| compiled_header(headers[i]))
}

/// The headers of a response, compiled in order: each name in its normal
/// form with what its value renders to, or the error of the first name that
/// cannot name a header.
pub open spec fn compiled_headers(headers: Seq<ast::Header>) -> Result<
    Seq<(Seq<char>, Result<Seq<char>, Seq<char>>)>,
    EntryErrorView,
>
    decreases headers.len(),
{
    if headers.len() == 0 {
        Ok(Seq::empty())
    } else {
        match compiled_headers(headers.drop_last()) {
            Err(e) => Err(e),
            Ok(prefix) => if is_header_name(headers.last().key.encoded_spec()) {
                Ok(
                    prefix.push(
                        (
                            lowered(headers.last().key.encoded_spec()),
                            compiled_template(headers.last().value),
                        ),
                    ),
                )
            } else {
                Err(
                    EntryErrorView::InvalidHeaderName(
                        header_name_error(headers.last().key.encoded_spec()),
                    ),
                )
            },
        }
    }
}

/// Whether the body is of a kind that can be compiled.
pub open spec fn is_compilable(body: ast::Bytes) -> bool {
    !(body is Base64) && !(body is File) && !(body is Hex)
}

/// What a body of the source renders to.
pub open spec fn compiled_body(body: ast::Bytes) -> Result<Seq<char>, Seq<char>> {
    match body {
        ast::Bytes::Json(val) => Ok(val.encoded_spec()),
        ast::Bytes::Xml(val) => Ok(val@),
        ast::Bytes::MultilineString(val) => compiled_template(val.value),
        ast::Bytes::OnelineString(val) => compiled_template(val),
        _ => Ok(Seq::empty()),
    }
}

/// What is said of a body of a kind that cannot be compiled.
pub open spec fn unsupported_body(body: ast::Bytes) -> Seq<char> {
    if body is Base64 {
        "base64 body"@
    } else if body is File {
        "file body"@
    } else {
        "hex body"@
    }
}

/// The body of a response, compiled, or the error of a body of a kind that
/// cannot be compiled.
pub open spec fn compiled_response_body(body: Option<ast::Body>) -> Result<
    Option<Result<Seq<char>, Seq<char>>>,
    EntryErrorView,
> {
    match body {
        None => Ok(None),
        Some(b) => if is_compilable(b.value) {
            Ok(Some(compiled_body(b.value)))
        } else {
            Err(EntryErrorView::NotYetImplemented(unsupported_body(b.value)))
        },
    }
}

/// The entry that an entry of the source compiles to, or the first error:
/// of the method, then of the status, then of the headers of the response,
/// then of its body, then of the conditions.
pub open spec fn compiled_entry(entry: ast::Entry) -> Result<EntryView, EntryErrorView> {
    if !is_token(entry.request.method.0@) {
        Err(EntryErrorView::InvalidMethod(entry.request.method.0@))
    } else if !is_status_code(entry.response.status.value) {
        Err(EntryErrorView::InvalidStatusCode(entry.response.status.value))
    } else {
        match compiled_headers(entry.response.headers@) {
            Err(e) => Err(e),
            Ok(headers) => match compiled_response_body(entry.response.body) {
                Err(e) => Err(e),
                Ok(body) => match compiled_asserts(section_asserts(entry.request.sections@)) {
                    Err(e) => Err(e),
                    Ok(asserts) => Ok(
                        EntryView {
                            path: entry.request.path.display_spec(),
                            method: entry.request.method.0@,
                            asserts: asserts + header_asserts(entry.request.headers@),
                            status_code: entry.response.status.value,
                            headers,
                            body,
                        },
                    ),
                },
            },
        }
    }
}

/// Whether `compiled` is what the body compiles to: JSON and XML as the
/// plain string of their text, and a string as its template compiles.
pub open spec fn is_body_of(compiled: StringOrTemplate, body: ast::Bytes) -> bool {
    match body {
        ast::Bytes::Json(val) => compiled matches StringOrTemplate::String(s) && s@
            == val.encoded_spec(),
        ast::Bytes::Xml(val) => compiled == StringOrTemplate::String(val),
        ast::Bytes::MultilineString(val) => is_compiled_from(compiled, val.value),
        ast::Bytes::OnelineString(val) => is_compiled_from(compiled, val),
        _ => false,
    }
}

/// Whether the headers and the body of a compiled entry are those of the
/// response of the source, each compiled: a template that holds a variable
/// reference is kept as it is, and any other is a plain string.
pub open spec fn keeps_templates(entry: Entry, response: ast::Response) -> bool {
    &&& entry.headers@.len() == response.headers@.len()
    &&& forall|i: int|
        0 <= i < entry.headers@.len() ==> is_compiled_from(
            (#[trigger] entry.headers@[i]).1,
            response.headers@[i].value,
        )
    &&& match response.body {
        Some(b) => entry.body matches Some(c) && is_body_of(c, b.value),
        None => entry.body is None,
    }
}

/// Compiles a body of the source.
pub fn compile_body(body: ast::Bytes) -> (r: StringOrTemplate)
    requires
        is_compilable(body),
    ensures
        r.rendering() == compiled_body(body),
        is_body_of(r, body),
{
    match body {
        ast::Bytes::Json(val) => StringOrTemplate::String(val.encoded()),
        ast::Bytes::Xml(val) => StringOrTemplate::String(val),
        ast::Bytes::MultilineString(val) => StringOrTemplate::from(val.value()),
        ast::Bytes::OnelineString(val) => StringOrTemplate::from(val),
        _ => StringOrTemplate::String(String::new()),
    }
}

/// Takes the asserts of the first `[Asserts]` section.
pub fn take_asserts(sections: Vec<ast::RequestSection>) -> (r: Vec<ast::Assert>)
    ensures
        r@ == section_asserts(sections@),
{
    let mut found: Option<Vec<ast::Assert>> = None;
    assert(sections@.skip(0) == sections@);
    for section in it: sections
        invariant
            it.seq() == sections@,
            match found {
                Some(asserts) => asserts@ == section_asserts(sections@),
                None => section_asserts(sections@) == section_asserts(
                    sections@.skip(it.index()),
                ),
            },
    {
        let ghost rest = sections@.skip(it.index());
        assert(rest[0] == sections@[it.index()]);
        assert(rest.skip(1) == sections@.skip(it.index() + 1));
        if found.is_none() {
            if let ast::RequestSectionValue::Asserts(asserts) = section.value {
                found = Some(asserts);
            }
        }
    }
    match found {
        Some(asserts) => asserts,
        None => Vec::new(),
    }
}

/// What is said of a condition that cannot be evaluated.
fn describe_unsupported(a: &Assert) -> (r: String)
    ensures
        r@ == unsupported_assert(a@),
{
    match &a.query {
        crate::asserts::query::Query::Body => "body query".to_string(),
        crate::asserts::query::Query::Jsonpath(_) => "jsonpath query".to_string(),
        _ => "big integer operand".to_string(),
    }
}

/// Compiles the headers of a response, in order.
fn compile_headers(ast_headers: Vec<ast::Header>) -> (r: Result<
    Vec<(String, StringOrTemplate)>,
    EntryCompilationError,
>)
    ensures
        match r {
            Ok(headers) => {
                &&& compiled_headers(ast_headers@) == Ok::<_, EntryErrorView>(
                    headers_view(headers@),
                )
                &&& headers@.len() == ast_headers@.len()
                &&& forall|i: int|
                    0 <= i < headers@.len() ==> is_compiled_from(
                        (#[trigger] headers@[i]).1,
                        ast_headers@[i].value,
                    )
            },
            Err(e) => compiled_headers(ast_headers@) == Err::<
                Seq<(Seq<char>, Result<Seq<char>, Seq<char>>)>,
                _,
            >(e@),
        },
{
    let mut headers: Vec<(String, StringOrTemplate)> = Vec::new();
    assert(headers_view(headers@) =~= Seq::empty());
    for header in it: ast_headers
        invariant
            it.seq() == ast_headers@,
            compiled_headers(ast_headers@.take(it.index())) == Ok::<_, EntryErrorView>(
                headers_view(headers@),
            ),
            headers@.len() == it.index(),
            forall|i: int|
                0 <= i < headers@.len() ==> is_compiled_from(
                    (#[trigger] headers@[i]).1,
                    ast_headers@[i].value,
                ),
    {
        assert(ast_headers@.take(it.index() + 1).drop_last() == ast_headers@.take(it.index()));
        let name = match header_name(header.key.encoded().as_str()) {
            Ok(name) => name,
            Err(message) => {
                proof {
                    lemma_headers_error_stays(ast_headers@, it.index() + 1);
                }
                return Err(EntryCompilationError::InvalidHeaderName(message));
            },
        };
        let ghost before = headers_view(headers@);
        let value = StringOrTemplate::from_ast_template(header.value);
        headers.push((name, value));
        assert(headers_view(headers@) =~= before.push((name@, value.rendering())));
    }
    assert(ast_headers@.take(ast_headers@.len() as int) == ast_headers@);
    Ok(headers)
}

/// Compiles the asserts of a section, in order.
fn compile_asserts(source: Vec<ast::Assert>) -> (r: Result<Vec<Assert>, EntryCompilationError>)
    ensures
        match r {
            Ok(asserts) => {
                &&& compiled_asserts(source@) == Ok::<_, EntryErrorView>(asserts_view(asserts@))
                &&& forall|k: int|
                    0 <= k < asserts@.len() ==> (#[trigger] asserts@[k])@.is_supported()
            },
            Err(e) => compiled_asserts(source@) == Err::<Seq<AssertView>, _>(e@),
        },
{
    let mut asserts: Vec<Assert> = Vec::new();
    assert(asserts_view(asserts@) =~= Seq::empty());
    for assert0 in it: source
        invariant
            it.seq() == source@,
            compiled_asserts(source@.take(it.index())) == Ok::<_, EntryErrorView>(
                asserts_view(asserts@),
            ),
            forall|k: int| 0 <= k < asserts@.len() ==> (#[trigger] asserts@[k])@.is_supported(),
    {
        assert(source@.take(it.index() + 1).drop_last() == source@.take(it.index()));
        let compiled = match Assert::try_from(assert0) {
            Ok(a) => a,
            Err(e) => {
                proof {
                    lemma_asserts_error_stays(source@, it.index() + 1);
                }
                return Err(EntryCompilationError::AssertCompilationError(e));
            },
        };
        if !compiled.is_supported() {
            proof {
                lemma_asserts_error_stays(source@, it.index() + 1);
            }
            return Err(EntryCompilationError::NotYetImplemented(describe_unsupported(&compiled)));
        }
        let ghost before = asserts_view(asserts@);
        asserts.push(compiled);
        assert(asserts_view(asserts@) =~= before.push(compiled@));
    }
    assert(source@.take(source@.len() as int) == source@);
    Ok(asserts)
}

/// Adds the conditions of the header lines of a request to `asserts`.
fn push_header_asserts(asserts: &mut Vec<Assert>, headers: Vec<ast::Header>)
    requires
        forall|k: int| 0 <= k < old(asserts)@.len() ==> (#[trigger] old(asserts)@[k])@.is_supported(),
    ensures
        asserts_view(final(asserts)@) == asserts_view(old(asserts)@) + header_asserts(headers@),
        forall|k: int|
            0 <= k < final(asserts)@.len() ==> (#[trigger] final(asserts)@[k])@.is_supported(),
{
    let ghost from_sections = asserts_view(asserts@);
    assert(asserts_view(asserts@) =~= from_sections + header_asserts(headers@.take(0)));
    for header in it: headers
        invariant
            it.seq() == headers@,
            asserts_view(asserts@) == from_sections + header_asserts(headers@.take(it.index())),
            forall|k: int| 0 <= k < asserts@.len() ==> (#[trigger] asserts@[k])@.is_supported(),
    {
        let ghost before = asserts_view(asserts@);
        match Assert::try_from_header(header) {
            Ok(compiled) => {
                asserts.push(compiled);
                assert(asserts_view(asserts@) =~= before.push(compiled@));
                assert(asserts_view(asserts@) =~= from_sections + header_asserts(
                    headers@.take(it.index() + 1),
                ));
            },
            Err(_) => {},
        }
    }
    assert(headers@.take(headers@.len() as int) == headers@);
}

/// Compiles the body of a response.
fn compile_response_body(body: Option<ast::Body>) -> (r: Result<
    Option<StringOrTemplate>,
    EntryCompilationError,
>)
    ensures
        match r {
            Ok(Some(b)) => {
                &&& compiled_response_body(body) == Ok::<_, EntryErrorView>(Some(b.rendering()))
                &&& body matches Some(source) && is_body_of(b, source.value)
            },
            Ok(None) => body is None && compiled_response_body(body) == Ok::<
                Option<Result<Seq<char>, Seq<char>>>,
                EntryErrorView,
            >(None),
            Err(e) => compiled_response_body(body) == Err::<
                Option<Result<Seq<char>, Seq<char>>>,
                _,
            >(e@),
        },
{
    match body {
        None => Ok(None),
        Some(body) => match body.value {
            ast::Bytes::Base64(_) => Err(
                EntryCompilationError::NotYetImplemented("base64 body".to_string()),
            ),
            ast::Bytes::File(_) => Err(
                EntryCompilationError::NotYetImplemented("file body".to_string()),
            ),
            ast::Bytes::Hex(_) => Err(
                EntryCompilationError::NotYetImplemented("hex body".to_string()),
            ),
            value => Ok(Some(compile_body(value))),
        },
    }
}

impl Entry {
    /// What the rest of the library relies on: the method and the status
    /// exist, and every condition can be evaluated.
    pub open spec fn wf(&self) -> bool {
        &&& is_token(self.method@)
        &&& is_status_code(self.status_code)
        &&& self@.is_supported()
    }

    /// Whether every condition of the entry can be evaluated.
    pub fn is_supported(&self) -> (r: bool)
        ensures
            r == self@.is_supported(),
    {
        let mut i: usize = 0;
        while i < self.asserts.len()
            invariant
                i <= self.asserts.len(),
                forall|k: int| 0 <= k < i ==> (#[trigger] self@.asserts[k]).is_supported(),
            decreases self.asserts.len() - i,
        {
            assert(self@.asserts[i as int] == self.asserts@[i as int]@);
            if !self.asserts[i].is_supported() {
                return false;
            }
            i += 1;
        }
        true
    }

    /// Compiles an entry of the source.
    pub fn try_from(entry: ast::Entry) -> (r: Result<Entry, EntryCompilationError>)
        ensures
            match r {
                Ok(e) => {
                    &&& compiled_entry(entry) == Ok::<_, EntryErrorView>(e@)
                    &&& e.wf()
                    &&& keeps_templates(e, entry.response)
                },
                Err(e) => compiled_entry(entry) == Err::<EntryView, _>(e@),
            },
    {
        let path = entry.request.path.to_string();
        if !method_exists(entry.request.method.0.as_str()) {
            return Err(EntryCompilationError::InvalidMethod(entry.request.method.0));
        }
        let method = entry.request.method.0;
        if !status_code_exists(entry.response.status.value) {
            return Err(EntryCompilationError::InvalidStatusCode(entry.response.status.value));
        }
        let status_code = entry.response.status.value;
        let headers = match compile_headers(entry.response.headers) {
            Ok(headers) => headers,
            Err(e) => {
                return Err(e);
            },
        };
        let body = match compile_response_body(entry.response.body) {
            Ok(body) => body,
            Err(e) => {
                return Err(e);
            },
        };
        let mut asserts = match compile_asserts(take_asserts(entry.request.sections)) {
            Ok(asserts) => asserts,
            Err(e) => {
                return Err(e);
            },
        };
        push_header_asserts(&mut asserts, entry.request.headers);
        Ok(Entry { path, method, status_code, asserts, headers, body })
    }

    /// Builds the response of this entry: renders each header in turn, then
    /// the body. The first template that cannot be rendered turns the
    /// response into a report of the error, with status 500 and no header.
    pub fn handler(&self, _request: &Request) -> (r: Response)
        ensures
            r@ == self@.response(),
    {
        let status_code = self.status_code;
        let mut headers: Vec<(String, String)> = Vec::new();
        let ghost all = headers_view(self.headers@);
        let mut i: usize = 0;
        assert(response_headers(headers@) =~= Seq::empty());
        while i < self.headers.len()
            invariant
                i <= self.headers.len(),
                all == headers_view(self.headers@),
                rendered_headers(all.take(i as int)) == Ok::<_, Seq<char>>(
                    response_headers(headers@),
                ),
            decreases self.headers.len() - i,
        {
            assert(all.take(i + 1).drop_last() == all.take(i as int));
            let header_name = self.headers[i].0.clone();
            let header_value = match self.headers[i].1.execute() {
                Ok(header_value) => match header_value_refusal(header_value.as_str()) {
                    None => Ok(header_value),
                    Some(message) => Err(concat("internal error: ", message.as_str())),
                },
                Err(e) => Err(concat("internal error: ", e.to_string().as_str())),
            };
            match header_value {
                Ok(header_value) => {
                    let ghost before = response_headers(headers@);
                    headers.push((header_name, header_value));
                    assert(response_headers(headers@) =~= before.push(
                        (header_name@, header_value@),
                    ));
                },
                Err(message) => {
                    proof {
                        lemma_rendering_error_stays(all, i + 1);
                    }
                    return error_response(message.as_str());
                },
            }
            i += 1;
        }
        assert(all.take(i as int) == all);
        if let Some(body) = &self.body {
            match body.execute() {
                Ok(string_body) => Response {
                    status: status_code,
                    headers,
                    body: string_body.as_str().as_bytes_vec(),
                },
                Err(e) => error_response(e.to_string().as_str()),
            }
        } else {
            Response { status: self.status_code, headers, body: Vec::new() }
        }
    }

    /// Whether the request meets every condition of this entry. A condition
    /// that cannot be evaluated on the request counts as not met.
    pub fn matches(&self, request: &Request) -> (r: bool)
        requires
            self@.is_supported(),
        ensures
            r == self@.matches(request),
    {
        let mut i: usize = 0;
        while i < self.asserts.len()
            invariant
                i <= self.asserts.len(),
                self@.is_supported(),
                forall|k: int| 0 <= k < i ==> (#[trigger] self@.asserts[k]).passes(request),
            decreases self.asserts.len() - i,
        {
            assert(self@.asserts[i as int] == self.asserts@[i as int]@);
            let passed = match self.asserts[i].apply(request) {
                Ok(r) => r,
                Err(_) => false,
            };
            if !passed {
                return false;
            }
            i += 1;
        }
        true
    }
}

/// The names and values of a list of headers, as plain sequences.
pub open spec fn response_headers(headers: Seq<(String, String)>) -> Seq<(Seq<char>, Seq<char>)> {
    Seq::new(headers.len(), |i: int| (headers[i].0@, headers[i].1@))
}

/// The response that reports why a template could not be rendered.
fn error_response(message: &str) -> (r: Response)
    ensures
        r@ == template_error(message@),
{
    let body = concat("template error: ", message);
    let r = Response {
        status: INTERNAL_SERVER_ERROR,
        headers: Vec::new(),
        body: body.as_str().as_bytes_vec(),
    };
    assert(r@.headers =~= Seq::empty());
    r
}

/// Once a prefix of the headers fails to compile, the whole fails with the
/// same error.
pub proof fn lemma_headers_error_stays(headers: Seq<ast::Header>, n: int)
    requires
        0 <= n <= headers.len(),
        compiled_headers(headers.take(n)) is Err,
    ensures
        compiled_headers(headers) == compiled_headers(headers.take(n)),
    decreases headers.len() - n,
{
    if n < headers.len() {
        assert(headers.take(n + 1).drop_last() == headers.take(n));
        lemma_headers_error_stays(headers, n + 1);
    } else {
        assert(headers.take(n) == headers);
    }
}

/// Once a prefix of the asserts fails to compile, the whole fails with the
/// same error.
pub proof fn lemma_asserts_error_stays(asserts: Seq<ast::Assert>, n: int)
    requires
        0 <= n <= asserts.len(),
        compiled_asserts(asserts.take(n)) is Err,
    ensures
        compiled_asserts(asserts) == compiled_asserts(asserts.take(n)),
    decreases asserts.len() - n,
{
    if n < asserts.len() {
        assert(asserts.take(n + 1).drop_last() == asserts.take(n));
        lemma_asserts_error_stays(asserts, n + 1);
    } else {
        assert(asserts.take(n) == asserts);
    }
}

/// Once a prefix of the headers fails to render, the whole fails with the
/// same error.
pub proof fn lemma_rendering_error_stays(
    headers: Seq<(Seq<char>, Result<Seq<char>, Seq<char>>)>,
    n: int,
)
    requires
        0 <= n <= headers.len(),
        rendered_headers(headers.take(n)) is Err,
    ensures
        rendered_headers(headers) == rendered_headers(headers.take(n)),
    decreases headers.len() - n,
{
    if n < headers.len() {
        assert(headers.take(n + 1).drop_last() == headers.take(n));
        lemma_rendering_error_stays(headers, n + 1);
    } else {
        assert(headers.take(n) == headers);
    }
}

} // verus!
