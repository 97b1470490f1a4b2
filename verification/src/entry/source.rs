//! What an entry of the source says: the part of its text that decides what
//! it compiles to.

use vstd::prelude::*;

use crate::asserts::predicate::PredicateView;
use crate::asserts::query::{query_source, QuerySource, QueryView};
use crate::asserts::{assert_from, assert_source, assert_sources, AssertSource, AssertView};
use crate::ast;
use crate::blanks::{
    blank_source, line_end_source, line_end_sources, BlankSource, LineEndSource,
};
use crate::filters::{filter_sources, FilterSource};
use crate::entry::{
    compiled_asserts, compiled_entry, compiled_headers, compiled_response_body,
    header_asserts, section_asserts, unsupported_assert, EntryErrorView, EntryView,
};
use crate::http::{header_name_error, is_header_name, is_status_code, is_token, lowered};
use crate::json::JsonView;
use crate::template::{lemma_compiled_template, rendering_of};

verus! {

/// What a template says: how it was written, delimiters included, the text
/// of its elements, and the name of the first variable that it refers to.
pub struct TemplateSource {
    pub written: Seq<char>,
    pub text: Seq<char>,
    pub reference: Option<Seq<char>>,
}

/// What a template of the source says.
pub open spec fn template_source(template: ast::Template) -> TemplateSource {
    TemplateSource {
        written: template.encoded_spec(),
        text: ast::elements_encoded(template.elements@),
        reference: ast::first_reference(template.elements@),
    }
}

/// What a header line says: its name and its value.
pub struct HeaderSource {
    pub name: Seq<char>,
    pub value: TemplateSource,
}

/// What a header line of the source says.
pub open spec fn header_source(header: ast::Header) -> HeaderSource {
    HeaderSource { name: header.key.encoded_spec(), value: template_source(header.value) }
}

/// What each of a list of header lines says.
pub open spec fn header_sources(headers: Seq<ast::Header>) -> Seq<HeaderSource> {
    Seq::new(headers.len(), |i: int| header_source(headers[i]))
}

/// What a body says: its kind, and its text where it is rendered from text.
pub enum BodySource {
    Json(Seq<char>),
    Xml(Seq<char>),
    Template(TemplateSource),
    Base64,
    File,
    Hex,
}

/// What a body of the source says.
pub open spec fn body_source(body: ast::Bytes) -> BodySource {
    match body {
        ast::Bytes::Json(val) => BodySource::Json(val.encoded_spec()),
        ast::Bytes::Xml(val) => BodySource::Xml(val@),
        ast::Bytes::MultilineString(val) => BodySource::Template(template_source(val.value)),
        ast::Bytes::OnelineString(val) => BodySource::Template(template_source(val)),
        ast::Bytes::Base64(_) => BodySource::Base64,
        ast::Bytes::File(_) => BodySource::File,
        ast::Bytes::Hex(_) => BodySource::Hex,
    }
}

/// What a capture line says: the name of the variable and what it asks
/// for; and where its name and its query stand.
pub struct CaptureSource {
    pub name: Seq<char>,
    pub query: QuerySource,
    pub filters: Seq<FilterSource>,
    pub name_span: ast::SourceInfo,
    pub query_span: ast::SourceInfo,
    /// The lines before the capture that hold only blanks or a comment.
    pub lines_before: Seq<LineEndSource>,
    /// The spaces before the name.
    pub indent: BlankSource,
    /// The spaces before the colon.
    pub before_colon: BlankSource,
    /// The spaces after the colon.
    pub after_colon: BlankSource,
    /// The end of the line.
    pub line_end: LineEndSource,
}

/// What a capture line of the source says.
#[verifier::opaque]
pub open spec fn capture_source(capture: ast::Capture) -> CaptureSource {
    CaptureSource {
        name: capture.name.encoded_spec(),
        query: query_source(capture.query.value),
        filters: filter_sources(capture.filters@),
        name_span: capture.name.source_info,
        query_span: capture.query.source_info,
        lines_before: line_end_sources(capture.line_terminators@),
        indent: blank_source(capture.space0),
        before_colon: blank_source(capture.space1),
        after_colon: blank_source(capture.space2),
        line_end: line_end_source(capture.line_terminator0),
    }
}

/// What each of a list of capture lines says.
pub open spec fn capture_sources(captures: Seq<ast::Capture>) -> Seq<CaptureSource> {
    Seq::new(captures.len(), |i: int| capture_source(captures[i]))
}

/// What the lines of a section of a request say, by the kind of the
/// section.
pub enum SectionLines {
    Captures(Seq<CaptureSource>),
    Asserts(Seq<AssertSource>),
}

/// What a section of a request says: where its name stands, and what each
/// of its lines says.
pub struct SectionSource {
    pub span: ast::SourceInfo,
    pub lines: SectionLines,
    /// The lines before the section that hold only blanks or a comment.
    pub lines_before: Seq<LineEndSource>,
    /// The spaces before the name.
    pub indent: BlankSource,
    /// The end of the line of the name.
    pub line_end: LineEndSource,
}

/// What a section of a request says.
pub open spec fn section_source(section: ast::RequestSection) -> SectionSource {
    SectionSource {
        span: section.source_info,
        lines: match section.value {
            ast::RequestSectionValue::Asserts(asserts) => SectionLines::Asserts(
                assert_sources(asserts@),
            ),
            ast::RequestSectionValue::Captures(captures) => SectionLines::Captures(
                capture_sources(captures@),
            ),
        },
        lines_before: line_end_sources(section.line_terminators@),
        indent: blank_source(section.space0),
        line_end: line_end_source(section.line_terminator0),
    }
}

/// What each of a list of sections says.
pub open spec fn section_sources(sections: Seq<ast::RequestSection>) -> Seq<SectionSource> {
    Seq::new(sections.len(), |i: int| section_source(sections[i]))
}

/// What the lines of the first `[Asserts]` section say; nothing when there
/// is no such section.
pub open spec fn first_asserts(sections: Seq<SectionSource>) -> Seq<AssertSource>
    decreases sections.len(),
{
    if sections.len() == 0 {
        Seq::empty()
    } else {
        match sections[0].lines {
            SectionLines::Asserts(asserts) => asserts,
            SectionLines::Captures(_) => first_asserts(sections.skip(1)),
        }
    }
}

/// What a request pattern says, and where it stands.
pub struct RequestSource {
    pub span: ast::SourceInfo,
    pub method: Seq<char>,
    pub path: Seq<char>,
    pub headers: Seq<HeaderSource>,
    pub sections: Seq<SectionSource>,
}

/// What a response says, and where it stands.
pub struct ResponseSource {
    pub span: ast::SourceInfo,
    pub version: ast::VersionValue,
    pub status: u16,
    pub headers: Seq<HeaderSource>,
    pub body: Option<BodySource>,
}

/// What an entry says.
pub struct EntrySource {
    pub request: RequestSource,
    pub response: ResponseSource,
}

/// What a request pattern of the source says.
pub open spec fn request_source(request: ast::Request) -> RequestSource {
    RequestSource {
        span: request.source_info,
        method: request.method.0@,
        path: request.path.display_spec(),
        headers: header_sources(request.headers@),
        sections: section_sources(request.sections@),
    }
}

/// What a response of the source says.
pub open spec fn response_source(response: ast::Response) -> ResponseSource {
    ResponseSource {
        span: response.source_info,
        version: response.version.value,
        status: response.status.value,
        headers: header_sources(response.headers@),
        body: match response.body {
            Some(b) => Some(body_source(b.value)),
            None => None,
        },
    }
}

/// What an entry of the source says.
#[verifier::opaque]
pub open spec fn entry_source(entry: ast::Entry) -> EntrySource {
    EntrySource {
        request: request_source(entry.request),
        response: response_source(entry.response),
    }
}

/// What each of a list of entries says.
pub open spec fn entry_sources(entries: Seq<ast::Entry>) -> Seq<EntrySource> {
    Seq::new(entries.len(), |i: int| entry_source(entries[i]))
}

/// What a template renders to when no variable is defined.
pub open spec fn template_from(source: TemplateSource) -> Result<Seq<char>, Seq<char>> {
    rendering_of(source.reference, source.text)
}

/// The conditions that assert lines compile to, in order, or the error of
/// the first that cannot be compiled or evaluated.
pub open spec fn asserts_from(sources: Seq<AssertSource>) -> Result<Seq<AssertView>, EntryErrorView>
    decreases sources.len(),
{
    if sources.len() == 0 {
        Ok(Seq::empty())
    } else {
        match asserts_from(sources.drop_last()) {
            Err(e) => Err(e),
            Ok(prefix) => match assert_from(sources.last()) {
                Err(e) => Err(EntryErrorView::AssertCompilationError(e)),
                Ok(a) => if a.is_supported() {
                    Ok(prefix.push(a))
                } else {
                    Err(EntryErrorView::NotYetImplemented(unsupported_assert(a)))
                },
            },
        }
    }
}

/// The condition that a header line of a request compiles to: the header
/// equals the value as written.
pub open spec fn header_assert_from(source: HeaderSource) -> AssertView {
    AssertView {
        query: QueryView::Header(source.name),
        predicate: PredicateView::Equal(JsonView::String(source.value.written)),
        not: false,
    }
}

/// The conditions that the header lines of a request compile to.
pub open spec fn header_asserts_from(sources: Seq<HeaderSource>) -> Seq<AssertView> {
    Seq::new(sources.len(), |i: int| header_assert_from(sources[i]))
}

/// The headers of a response, compiled in order, or the error of the first
/// name that cannot name a header.
pub open spec fn headers_from(sources: Seq<HeaderSource>) -> Result<
    Seq<(Seq<char>, Result<Seq<char>, Seq<char>>)>,
    EntryErrorView,
>
    decreases sources.len(),
{
    if sources.len() == 0 {
        Ok(Seq::empty())
    } else {
        match headers_from(sources.drop_last()) {
            Err(e) => Err(e),
            Ok(prefix) => if is_header_name(sources.last().name) {
                Ok(prefix.push((lowered(sources.last().name), template_from(sources.last().value))))
            } else {
                Err(EntryErrorView::InvalidHeaderName(header_name_error(sources.last().name)))
            },
        }
    }
}

/// The body of a response, compiled, or the error of a body of a kind that
/// cannot be compiled.
pub open spec fn body_from(source: Option<BodySource>) -> Result<
    Option<Result<Seq<char>, Seq<char>>>,
    EntryErrorView,
> {
    match source {
        None => Ok(None),
        Some(BodySource::Json(text)) => Ok(Some(Ok(text))),
        Some(BodySource::Xml(text)) => Ok(Some(Ok(text))),
        Some(BodySource::Template(t)) => Ok(Some(template_from(t))),
        Some(BodySource::Base64) => Err(EntryErrorView::NotYetImplemented("base64 body"@)),
        Some(BodySource::File) => Err(EntryErrorView::NotYetImplemented("file body"@)),
        Some(BodySource::Hex) => Err(EntryErrorView::NotYetImplemented("hex body"@)),
    }
}

/// The entry that an entry of the source compiles to, or the first error:
/// of the method, then of the status, then of the headers of the response,
/// then of its body, then of the conditions.
pub open spec fn entry_from(source: EntrySource) -> Result<EntryView, EntryErrorView> {
    if !is_token(source.request.method) {
        Err(EntryErrorView::InvalidMethod(source.request.method))
    } else if !is_status_code(source.response.status) {
        Err(EntryErrorView::InvalidStatusCode(source.response.status))
    } else {
        match headers_from(source.response.headers) {
            Err(e) => Err(e),
            Ok(headers) => match body_from(source.response.body) {
                Err(e) => Err(e),
                Ok(body) => match asserts_from(first_asserts(source.request.sections)) {
                    Err(e) => Err(e),
                    Ok(asserts) => Ok(
                        EntryView {
                            path: source.request.path,
                            method: source.request.method,
                            asserts: asserts + header_asserts_from(source.request.headers),
                            status_code: source.response.status,
                            headers,
                            body,
                        },
                    ),
                },
            },
        }
    }
}

/// The entries compiled in order, or the error of the first that cannot be
/// compiled.
pub open spec fn entries_from(sources: Seq<EntrySource>) -> Result<Seq<EntryView>, EntryErrorView>
    decreases sources.len(),
{
    if sources.len() == 0 {
        Ok(Seq::empty())
    } else {
        match entries_from(sources.drop_last()) {
            Err(e) => Err(e),
            Ok(prefix) => match entry_from(sources.last()) {
                Err(e) => Err(e),
                Ok(entry) => Ok(prefix.push(entry)),
            },
        }
    }
}

/// What the asserts of the first `[Asserts]` section say is decided by what
/// the sections say.
pub proof fn lemma_first_asserts(sections: Seq<ast::RequestSection>)
    ensures
        assert_sources(section_asserts(sections)) == first_asserts(section_sources(sections)),
    decreases sections.len(),
{
    if sections.len() == 0 {
        assert(assert_sources(Seq::<ast::Assert>::empty()) =~= Seq::<AssertSource>::empty());
    } else {
        assert(section_sources(sections)[0] == section_source(sections[0]));
        assert(section_sources(sections).skip(1) =~= section_sources(sections.skip(1)));
        lemma_first_asserts(sections.skip(1));
    }
}

/// What assert lines compile to is decided by what they say.
pub proof fn lemma_asserts_from(asserts: Seq<ast::Assert>)
    ensures
        compiled_asserts(asserts) == asserts_from(assert_sources(asserts)),
    decreases asserts.len(),
{
    if asserts.len() > 0 {
        assert(assert_sources(asserts).drop_last() =~= assert_sources(asserts.drop_last()));
        assert(assert_sources(asserts).last() == assert_source(asserts.last()));
        lemma_asserts_from(asserts.drop_last());
    }
}

/// What the header lines of a response compile to is decided by what they
/// say.
pub proof fn lemma_headers_from(headers: Seq<ast::Header>)
    ensures
        compiled_headers(headers) == headers_from(header_sources(headers)),
    decreases headers.len(),
{
    if headers.len() > 0 {
        assert(header_sources(headers).drop_last() =~= header_sources(headers.drop_last()));
        assert(header_sources(headers).last() == header_source(headers.last()));
        lemma_compiled_template(headers.last().value);
        lemma_headers_from(headers.drop_last());
    }
}

/// What the header lines of a request compile to is decided by what they
/// say.
pub proof fn lemma_header_asserts_from(headers: Seq<ast::Header>)
    ensures
        header_asserts(headers) == header_asserts_from(header_sources(headers)),
{
    assert(header_asserts(headers) =~= header_asserts_from(header_sources(headers)));
}

/// What the body of a response compiles to is decided by what it says.
pub proof fn lemma_body_from(body: Option<ast::Body>)
    ensures
        compiled_response_body(body) == body_from(
            match body {
                Some(b) => Some(body_source(b.value)),
                None => None,
            },
        ),
{
    match body {
        Some(b) => {
            match b.value {
                ast::Bytes::MultilineString(val) => {
                    lemma_compiled_template(val.value);
                },
                ast::Bytes::OnelineString(val) => {
                    lemma_compiled_template(val);
                },
                _ => {},
            }
        },
        None => {},
    }
}

/// What an entry compiles to is decided by what it says.
pub proof fn lemma_entry_from(entry: ast::Entry)
    ensures
        compiled_entry(entry) == entry_from(entry_source(entry)),
{
    reveal(entry_source);
    lemma_headers_from(entry.response.headers@);
    lemma_body_from(entry.response.body);
    lemma_first_asserts(entry.request.sections@);
    lemma_asserts_from(section_asserts(entry.request.sections@));
    lemma_header_asserts_from(entry.request.headers@);
}

} // verus!
