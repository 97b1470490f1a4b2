//! The syntax tree of a mock file. Every node keeps the text it was read
//! from, so that a file can be printed back, and the place it was read at.

use vstd::prelude::*;

use crate::decimal::Decimal;
use crate::text::{chars_of, extend_chars, string_of};

verus! {

/// A place in the source text. Lines and columns start at 1.
#[derive(Clone, Copy, Debug, PartialEq, Eq)]
pub struct Pos {
    pub line: usize,
    pub column: usize,
}

impl Pos {
    pub fn new(line: usize, column: usize) -> (r: Pos)
        ensures
            r.line == line,
            r.column == column,
    {
        Pos { line, column }
    }
}

/// The span of a node: where it starts and where the text after it starts.
#[derive(Clone, Copy, Debug, PartialEq, Eq)]
pub struct SourceInfo {
    pub start: Pos,
    pub end: Pos,
}

impl SourceInfo {
    pub fn new(start: Pos, end: Pos) -> (r: SourceInfo)
        ensures
            r.start == start,
            r.end == end,
    {
        SourceInfo { start, end }
    }
}

#[derive(Clone, Debug, PartialEq, Eq)]
pub struct Whitespace {
    pub value: String,
    pub source_info: SourceInfo,
}

#[derive(Clone, Debug, PartialEq, Eq)]
pub struct Comment {
    pub value: String,
}

#[derive(Clone, Debug, PartialEq, Eq)]
pub struct LineTerminator {
    pub space0: Whitespace,
    pub comment: Option<Comment>,
    pub newline: Whitespace,
}

#[derive(Clone, Debug, PartialEq, Eq)]
pub struct Variable {
    pub name: String,
    pub source_info: SourceInfo,
}

/// A variable reference between double braces.
#[derive(Clone, Debug, PartialEq, Eq)]
pub struct Expr {
    pub space0: Whitespace,
    pub variable: Variable,
    pub space1: Whitespace,
}

#[derive(Clone, Debug, PartialEq, Eq)]
pub enum TemplateElement {
    /// Literal text: `value` is what it denotes, `encoded` how it was written.
    String { value: String, encoded: String },
    Expression(Expr),
}

#[derive(Clone, Debug, PartialEq, Eq)]
pub struct Template {
    pub delimiter: Option<char>,
    pub elements: Vec<TemplateElement>,
    pub source_info: SourceInfo,
}

#[derive(Clone, Debug, PartialEq, Eq)]
pub struct Regex {
    pub inner: String,
}

#[derive(Clone, Debug, PartialEq, Eq)]
pub enum RegexValue {
    Template(Template),
    Regex(Regex),
}

#[derive(Clone, Debug, PartialEq, Eq)]
pub struct Float {
    pub value: Decimal,
    pub encoded: String,
}

#[derive(Clone, Debug, PartialEq, Eq)]
pub enum Number {
    Float(Float),
    Integer(i64),
    /// The digits of an integer literal that does not fit in 64 bits.
    BigInteger(String),
}

#[derive(Clone, Debug, PartialEq, Eq)]
pub struct Filename {
    pub value: String,
    pub source_info: SourceInfo,
}

#[derive(Clone, Debug, PartialEq, Eq)]
pub struct File {
    pub space0: Whitespace,
    pub filename: Filename,
    pub space1: Whitespace,
}

#[derive(Clone, Debug, PartialEq, Eq)]
pub struct Base64 {
    pub space0: Whitespace,
    pub encoded: String,
    pub space1: Whitespace,
}

#[derive(Clone, Debug, PartialEq, Eq)]
pub struct Hex {
    pub space0: Whitespace,
    pub value: Vec<u8>,
    pub encoded: String,
    pub space1: Whitespace,
}

#[derive(Clone, Debug, PartialEq, Eq)]
pub struct MultilineString {
    /// What follows the opening fence on its line, such as `json`.
    pub language: String,
    pub space: Whitespace,
    pub newline: Whitespace,
    pub value: Template,
}

#[derive(Debug, PartialEq, Eq)]
pub enum JsonValue {
    Null,
    Boolean(bool),
    Number(String),
    String(Template),
    Expression(Expr),
    List { space0: String, elements: Vec<JsonListElement> },
    Object { space0: String, elements: Vec<JsonObjectElement> },
}

#[derive(Debug, PartialEq, Eq)]
pub struct JsonListElement {
    pub space0: String,
    pub value: JsonValue,
    pub space1: String,
}

#[derive(Debug, PartialEq, Eq)]
pub struct JsonObjectElement {
    pub space0: String,
    pub name: Template,
    pub space1: String,
    pub space2: String,
    pub value: JsonValue,
    pub space3: String,
}

#[derive(Debug, PartialEq, Eq)]
pub enum Bytes {
    Json(JsonValue),
    Xml(String),
    MultilineString(MultilineString),
    OnelineString(Template),
    Base64(Base64),
    File(File),
    Hex(Hex),
}

#[derive(Debug, PartialEq, Eq)]
pub struct Body {
    pub line_terminators: Vec<LineTerminator>,
    pub space0: Whitespace,
    pub value: Bytes,
    pub line_terminator0: LineTerminator,
}

#[derive(Clone, Debug, PartialEq, Eq)]
pub enum CookieAttributeName {
    Value(String),
    Expires(String),
    MaxAge(String),
    Domain(String),
    Path(String),
    Secure(String),
    HttpOnly(String),
    SameSite(String),
}

#[derive(Clone, Debug, PartialEq, Eq)]
pub struct CookieAttribute {
    pub space0: Whitespace,
    pub name: CookieAttributeName,
    pub space1: Whitespace,
}

#[derive(Clone, Debug, PartialEq, Eq)]
pub struct CookiePath {
    pub name: Template,
    pub attribute: Option<CookieAttribute>,
}

#[derive(Clone, Debug, PartialEq, Eq)]
pub enum QueryValue {
    Path,
    Header { space0: Whitespace, name: Template },
    Cookie { space0: Whitespace, expr: CookiePath },
    Body,
    Xpath { space0: Whitespace, expr: Template },
    Jsonpath { space0: Whitespace, expr: Template },
    Regex { space0: Whitespace, value: RegexValue },
    Variable { space0: Whitespace, name: Template },
    QueryParam { space0: Whitespace, name: Template },
    Bytes,
    Sha256,
    Md5,
}

#[derive(Clone, Debug, PartialEq, Eq)]
pub struct Query {
    pub source_info: SourceInfo,
    pub value: QueryValue,
}

#[derive(Clone, Debug, PartialEq, Eq)]
pub enum FilterValue {
    Count,
    Decode { space0: Whitespace, encoding: Template },
    Format { space0: Whitespace, fmt: Template },
    HtmlEscape,
    HtmlUnescape,
    JsonPath { space0: Whitespace, expr: Template },
    Nth { space0: Whitespace, n: u64 },
    Regex { space0: Whitespace, value: RegexValue },
    Replace { space0: Whitespace, old_value: RegexValue, space1: Whitespace, new_value: Template },
    Split { space0: Whitespace, sep: Template },
    ToInt,
    UrlDecode,
    UrlEncode,
    XPath { space0: Whitespace, expr: Template },
}

#[derive(Clone, Debug, PartialEq, Eq)]
pub struct Filter {
    pub source_info: SourceInfo,
    pub value: FilterValue,
}

#[derive(Clone, Debug, PartialEq, Eq)]
pub enum PredicateValue {
    Base64(Base64),
    Bool(bool),
    File(File),
    Hex(Hex),
    MultilineString(MultilineString),
    Null,
    Number(Number),
    String(Template),
    Regex(Regex),
    Expression(Expr),
}

#[derive(Clone, Debug, PartialEq, Eq)]
pub enum PredicateFuncValue {
    Equal { space0: Whitespace, value: PredicateValue, operator: bool },
    NotEqual { space0: Whitespace, value: PredicateValue, operator: bool },
    GreaterThan { space0: Whitespace, value: PredicateValue, operator: bool },
    GreaterThanOrEqual { space0: Whitespace, value: PredicateValue, operator: bool },
    LessThan { space0: Whitespace, value: PredicateValue, operator: bool },
    LessThanOrEqual { space0: Whitespace, value: PredicateValue, operator: bool },
    StartWith { space0: Whitespace, value: PredicateValue },
    EndWith { space0: Whitespace, value: PredicateValue },
    Contain { space0: Whitespace, value: PredicateValue },
    Include { space0: Whitespace, value: PredicateValue },
    Match { space0: Whitespace, value: PredicateValue },
    IsInteger,
    IsFloat,
    IsBoolean,
    IsString,
    IsCollection,
    IsDate,
    IsIsoDate,
    Exist,
    IsEmpty,
}

#[derive(Clone, Debug, PartialEq, Eq)]
pub struct PredicateFunc {
    pub source_info: SourceInfo,
    pub value: PredicateFuncValue,
}

#[derive(Clone, Debug, PartialEq, Eq)]
pub struct Predicate {
    pub not: bool,
    pub space0: Whitespace,
    pub predicate_func: PredicateFunc,
}

#[derive(Clone, Debug, PartialEq, Eq)]
pub struct Capture {
    pub line_terminators: Vec<LineTerminator>,
    pub space0: Whitespace,
    pub name: Template,
    pub space1: Whitespace,
    pub space2: Whitespace,
    pub query: Query,
    pub filters: Vec<(Whitespace, Filter)>,
    pub line_terminator0: LineTerminator,
}

#[derive(Clone, Debug, PartialEq, Eq)]
pub struct Assert {
    pub line_terminators: Vec<LineTerminator>,
    pub space0: Whitespace,
    pub query: Query,
    pub filters: Vec<(Whitespace, Filter)>,
    pub space1: Whitespace,
    pub predicate: Predicate,
    pub line_terminator0: LineTerminator,
}

#[derive(Clone, Debug, PartialEq, Eq)]
pub enum RequestSectionValue {
    Captures(Vec<Capture>),
    Asserts(Vec<Assert>),
}

#[derive(Clone, Debug, PartialEq, Eq)]
pub struct RequestSection {
    pub line_terminators: Vec<LineTerminator>,
    pub space0: Whitespace,
    pub line_terminator0: LineTerminator,
    pub value: RequestSectionValue,
    pub source_info: SourceInfo,
}

/// A `name: value` line.
#[derive(Clone, Debug, PartialEq, Eq)]
pub struct Header {
    pub line_terminators: Vec<LineTerminator>,
    pub space0: Whitespace,
    pub key: Template,
    pub space1: Whitespace,
    pub space2: Whitespace,
    pub value: Template,
    pub line_terminator0: LineTerminator,
}

#[derive(Clone, Debug, PartialEq, Eq)]
pub struct Method(pub String);

#[derive(Clone, Debug, PartialEq, Eq)]
pub enum VersionValue {
    Version1,
    Version11,
    Version2,
    Version3,
    VersionAny,
}

#[derive(Clone, Debug, PartialEq, Eq)]
pub struct Version {
    pub value: VersionValue,
    pub source_info: SourceInfo,
}

#[derive(Clone, Debug, PartialEq, Eq)]
pub struct Status {
    pub value: u16,
    pub source_info: SourceInfo,
}

#[derive(Clone, Debug, PartialEq, Eq)]
pub struct Request {
    pub line_terminators: Vec<LineTerminator>,
    pub space0: Whitespace,
    pub method: Method,
    pub space1: Whitespace,
    pub path: Template,
    pub line_terminator0: LineTerminator,
    pub headers: Vec<Header>,
    pub sections: Vec<RequestSection>,
    pub source_info: SourceInfo,
}

#[derive(Debug, PartialEq, Eq)]
pub struct Response {
    pub line_terminators: Vec<LineTerminator>,
    pub space0: Whitespace,
    pub version: Version,
    pub space1: Whitespace,
    pub status: Status,
    pub line_terminator0: LineTerminator,
    pub headers: Vec<Header>,
    pub body: Option<Body>,
    pub source_info: SourceInfo,
}

#[derive(Debug, PartialEq, Eq)]
pub struct Entry {
    pub request: Request,
    pub response: Response,
}

#[derive(Debug, PartialEq, Eq)]
pub struct ImpostorFile {
    pub entries: Vec<Entry>,
    pub line_terminators: Vec<LineTerminator>,
}

/// The opening of a variable reference.
pub open spec fn open_braces() -> Seq<char> {
    seq!['{', '{']
}

/// The closing of a variable reference.
pub open spec fn close_braces() -> Seq<char> {
    seq!['}', '}']
}

impl Expr {
    /// The text the reference was written as, braces included.
    pub open spec fn encoded_spec(&self) -> Seq<char> {
        open_braces() + self.space0.value@ + self.variable.name@ + self.space1.value@
            + close_braces()
    }

    /// Appends the text the reference was written as to `out`.
    pub fn encode_into(&self, out: &mut Vec<char>)
        ensures
            final(out)@ == old(out)@ + self.encoded_spec(),
    {
        out.push('{');
        out.push('{');
        extend_chars(out, &chars_of(self.space0.value.as_str()));
        extend_chars(out, &chars_of(self.variable.name.as_str()));
        extend_chars(out, &chars_of(self.space1.value.as_str()));
        out.push('}');
        out.push('}');
        assert(out@ =~= old(out)@ + self.encoded_spec());
    }
}

impl TemplateElement {
    /// The text the element was written as.
    pub open spec fn encoded_spec(&self) -> Seq<char> {
        match self {
            TemplateElement::String { encoded, .. } => encoded@,
            TemplateElement::Expression(expr) => expr.encoded_spec(),
        }
    }

    /// The text the element stands for: the value of a literal, and a variable
    /// reference as it was written.
    pub open spec fn display_spec(&self) -> Seq<char> {
        match self {
            TemplateElement::String { value, .. } => value@,
            TemplateElement::Expression(expr) => expr.encoded_spec(),
        }
    }
}

/// The elements as they were written, one after the other.
pub open spec fn elements_encoded(elements: Seq<TemplateElement>) -> Seq<char>
    decreases elements.len(),
{
    if elements.len() == 0 {
        Seq::empty()
    } else {
        elements_encoded(elements.drop_last()) + elements.last().encoded_spec()
    }
}

/// What the elements stand for, one after the other.
pub open spec fn elements_display(elements: Seq<TemplateElement>) -> Seq<char>
    decreases elements.len(),
{
    if elements.len() == 0 {
        Seq::empty()
    } else {
        elements_display(elements.drop_last()) + elements.last().display_spec()
    }
}

/// Whether one of the elements is a variable reference.
pub open spec fn has_expression(elements: Seq<TemplateElement>) -> bool {
    exists|i: int| 0 <= i < elements.len() && #[trigger] elements[i] is Expression
}

/// The name of the first variable that the elements refer to.
pub open spec fn first_reference(elements: Seq<TemplateElement>) -> Option<Seq<char>>
    decreases elements.len(),
{
    if elements.len() == 0 {
        None
    } else {
        match first_reference(elements.drop_last()) {
            Some(name) => Some(name),
            None => match elements.last() {
                TemplateElement::Expression(expr) => Some(expr.variable.name@),
                _ => None,
            },
        }
    }
}

/// The elements hold a variable reference exactly when they have a first
/// one.
pub proof fn lemma_first_reference(elements: Seq<TemplateElement>)
    ensures
        has_expression(elements) <==> first_reference(elements) is Some,
    decreases elements.len(),
{
    if elements.len() > 0 {
        let shorter = elements.drop_last();
        lemma_first_reference(shorter);
        if has_expression(elements) {
            let i = choose|i: int| 0 <= i < elements.len() && #[trigger] elements[i] is Expression;
            if i < shorter.len() {
                assert(shorter[i] is Expression);
            }
        }
        if has_expression(shorter) {
            let i = choose|i: int| 0 <= i < shorter.len() && #[trigger] shorter[i] is Expression;
            assert(elements[i] is Expression);
        }
        if elements.last() is Expression {
            assert(elements[elements.len() - 1] is Expression);
        }
    }
}

/// The delimiter as text: one character, or nothing.
pub open spec fn delimiter_text(delimiter: Option<char>) -> Seq<char> {
    match delimiter {
        Some(d) => seq![d],
        None => Seq::empty(),
    }
}

impl Template {
    /// The template as it was written, delimiters included.
    pub open spec fn encoded_spec(&self) -> Seq<char> {
        delimiter_text(self.delimiter) + elements_encoded(self.elements@) + delimiter_text(
            self.delimiter,
        )
    }

    /// What the template stands for, without delimiters.
    pub open spec fn display_spec(&self) -> Seq<char> {
        elements_display(self.elements@)
    }

    /// The template as it was written, delimiters included.
    pub fn encoded(&self) -> (r: String)
        ensures
            r@ == self.encoded_spec(),
    {
        let mut out: Vec<char> = Vec::new();
        if let Some(d) = self.delimiter {
            out.push(d);
        }
        encode_elements_into(&self.elements, &mut out);
        if let Some(d) = self.delimiter {
            out.push(d);
        }
        assert(out@ =~= self.encoded_spec());
        string_of(&out)
    }

    /// What the template stands for, without delimiters.
    pub fn to_string(&self) -> (r: String)
        ensures
            r@ == self.display_spec(),
    {
        let mut out: Vec<char> = Vec::new();
        let mut i: usize = 0;
        while i < self.elements.len()
            invariant
                i <= self.elements.len(),
                out@ == elements_display(self.elements@.take(i as int)),
            decreases self.elements.len() - i,
        {
            assert(self.elements@.take(i + 1).drop_last() == self.elements@.take(i as int));
            match &self.elements[i] {
                TemplateElement::String { value, .. } => {
                    extend_chars(&mut out, &chars_of(value.as_str()));
                },
                TemplateElement::Expression(expr) => {
                    expr.encode_into(&mut out);
                },
            }
            i += 1;
        }
        assert(self.elements@.take(i as int) == self.elements@);
        string_of(&out)
    }

    /// Whether the template holds a variable reference.
    pub fn is_dynamic(&self) -> (r: bool)
        ensures
            r == has_expression(self.elements@),
    {
        let mut i: usize = 0;
        while i < self.elements.len()
            invariant
                i <= self.elements.len(),
                forall|k: int| 0 <= k < i ==> !(#[trigger] self.elements@[k] is Expression),
            decreases self.elements.len() - i,
        {
            if let TemplateElement::Expression(_) = &self.elements[i] {
                return true;
            }
            i += 1;
        }
        false
    }
}

impl MultilineString {
    /// The text between the fences.
    pub fn value(self) -> (r: Template)
        ensures
            r == self.value,
    {
        self.value
    }
}

/// Appends the elements as they were written to `out`.
pub fn encode_elements_into(elements: &Vec<TemplateElement>, out: &mut Vec<char>)
    ensures
        final(out)@ == old(out)@ + elements_encoded(elements@),
{
    let ghost head = out@;
    let mut i: usize = 0;
    assert(out@ =~= head + elements_encoded(elements@.take(0)));
    while i < elements.len()
        invariant
            i <= elements.len(),
            out@ == head + elements_encoded(elements@.take(i as int)),
        decreases elements.len() - i,
    {
        assert(elements@.take(i + 1).drop_last() == elements@.take(i as int));
        match &elements[i] {
            TemplateElement::String { encoded, .. } => {
                extend_chars(out, &chars_of(encoded.as_str()));
            },
            TemplateElement::Expression(expr) => {
                expr.encode_into(out);
            },
        }
        i += 1;
    }
    assert(elements@.take(i as int) == elements@);
}

/// The name of a member of a JSON object, with what stands around it up to
/// its value, as it was written.
pub open spec fn member_head(e: JsonObjectElement) -> Seq<char> {
    e.space0@ + seq!['"'] + elements_encoded(e.name.elements@) + seq!['"'] + e.space1@ + seq![':']
        + e.space2@
}

/// Appends the name of a member of a JSON object, with what stands around
/// it up to its value, to `out`.
fn encode_member_head(e: &JsonObjectElement, out: &mut Vec<char>)
    ensures
        final(out)@ == old(out)@ + member_head(*e),
{
    extend_chars(out, &chars_of(e.space0.as_str()));
    out.push('"');
    encode_elements_into(&e.name.elements, out);
    out.push('"');
    extend_chars(out, &chars_of(e.space1.as_str()));
    out.push(':');
    extend_chars(out, &chars_of(e.space2.as_str()));
    assert(out@ =~= old(out)@ + member_head(*e));
}

/// What the first `n` elements of a JSON list were written as depends on
/// those elements only.
pub proof fn lemma_list_encoded_prefix(a: Seq<JsonListElement>, b: Seq<JsonListElement>, n: nat)
    requires
        n <= a.len(),
        n <= b.len(),
        a.take(n as int) == b.take(n as int),
    ensures
        list_encoded(a, n) == list_encoded(b, n),
    decreases n,
{
    if n > 0 {
        assert(a.take(n as int)[n - 1] == a[n - 1]);
        assert(b.take(n as int)[n - 1] == b[n - 1]);
        assert(a.take(n - 1) =~= a.take(n as int).take(n - 1));
        assert(b.take(n - 1) =~= b.take(n as int).take(n - 1));
        lemma_list_encoded_prefix(a, b, (n - 1) as nat);
    }
}

/// What the first `n` members of a JSON object were written as depends on
/// those members only.
pub proof fn lemma_object_encoded_prefix(
    a: Seq<JsonObjectElement>,
    b: Seq<JsonObjectElement>,
    n: nat,
)
    requires
        n <= a.len(),
        n <= b.len(),
        a.take(n as int) == b.take(n as int),
    ensures
        object_encoded(a, n) == object_encoded(b, n),
    decreases n,
{
    if n > 0 {
        assert(a.take(n as int)[n - 1] == a[n - 1]);
        assert(b.take(n as int)[n - 1] == b[n - 1]);
        assert(a.take(n - 1) =~= a.take(n as int).take(n - 1));
        assert(b.take(n - 1) =~= b.take(n as int).take(n - 1));
        lemma_object_encoded_prefix(a, b, (n - 1) as nat);
    }
}

/// The elements of a JSON list as they were written, up to the `n`-th,
/// with commas between them.
pub open spec fn list_encoded(elements: Seq<JsonListElement>, n: nat) -> Seq<char>
    decreases elements, n,
{
    if n == 0 || n > elements.len() {
        Seq::empty()
    } else {
        let e = elements[n - 1];
        let head = if n == 1 {
            Seq::<char>::empty()
        } else {
            list_encoded(elements, (n - 1) as nat).push(',')
        };
        head + e.space0@ + e.value.encoded_spec() + e.space1@
    }
}

/// The members of a JSON object as they were written, up to the `n`-th,
/// with commas between them.
pub open spec fn object_encoded(elements: Seq<JsonObjectElement>, n: nat) -> Seq<char>
    decreases elements, n,
{
    if n == 0 || n > elements.len() {
        Seq::empty()
    } else {
        let e = elements[n - 1];
        let head = if n == 1 {
            Seq::<char>::empty()
        } else {
            object_encoded(elements, (n - 1) as nat).push(',')
        };
        head + member_head(e) + e.value.encoded_spec() + e.space3@
    }
}

impl JsonValue {
    /// The value as it was written.
    #[verifier::opaque]
    pub open spec fn encoded_spec(&self) -> Seq<char>
        decreases self, 0nat,
    {
        match self {
            JsonValue::Null => seq!['n', 'u', 'l', 'l'],
            JsonValue::Boolean(b) => if *b {
                seq!['t', 'r', 'u', 'e']
            } else {
                seq!['f', 'a', 'l', 's', 'e']
            },
            JsonValue::Number(s) => s@,
            JsonValue::String(t) => seq!['"'] + elements_encoded(t.elements@) + seq!['"'],
            JsonValue::Expression(e) => e.encoded_spec(),
            JsonValue::List { space0, elements } => seq!['['] + space0@ + list_encoded(
                elements@,
                elements@.len(),
            ) + seq![']'],
            JsonValue::Object { space0, elements } => seq!['{'] + space0@ + object_encoded(
                elements@,
                elements@.len(),
            ) + seq!['}'],
        }
    }

    /// Appends the value as it was written to `out`.
    pub fn encode_into(&self, out: &mut Vec<char>)
        ensures
            final(out)@ == old(out)@ + self.encoded_spec(),
        decreases self,
    {
        reveal(JsonValue::encoded_spec);
        match self {
            JsonValue::Null => {
                extend_chars(out, &chars_of("null"));
                proof {
                    reveal_strlit("null");
                    assert("null"@ =~= seq!['n', 'u', 'l', 'l']);
                }
            },
            JsonValue::Boolean(b) => {
                if *b {
                    extend_chars(out, &chars_of("true"));
                    proof {
                        reveal_strlit("true");
                        assert("true"@ =~= seq!['t', 'r', 'u', 'e']);
                    }
                } else {
                    extend_chars(out, &chars_of("false"));
                    proof {
                        reveal_strlit("false");
                        assert("false"@ =~= seq!['f', 'a', 'l', 's', 'e']);
                    }
                }
            },
            JsonValue::Number(s) => {
                extend_chars(out, &chars_of(s.as_str()));
            },
            JsonValue::String(t) => {
                out.push('"');
                encode_elements_into(&t.elements, out);
                out.push('"');
                assert(out@ =~= old(out)@ + self.encoded_spec());
            },
            JsonValue::Expression(e) => {
                e.encode_into(out);
            },
            JsonValue::List { space0, elements } => {
                out.push('[');
                extend_chars(out, &chars_of(space0.as_str()));
                let ghost head = out@;
                let mut i: usize = 0;
                while i < elements.len()
                    invariant
                        i <= elements.len(),
                        *self == (JsonValue::List { space0: *space0, elements: *elements }),
                        out@ == head + list_encoded(elements@, i as nat),
                    decreases elements.len() - i,
                {
                    if i > 0 {
                        out.push(',');
                    }
                    let e = &elements[i];
                    extend_chars(out, &chars_of(e.space0.as_str()));
                    proof {
                        assert(self->List_elements == *elements);
                        assert(decreases_to!(*self => self->List_elements));
                        assert(decreases_to!(*elements => elements@[i as int]));
                    }
                    e.value.encode_into(out);
                    extend_chars(out, &chars_of(e.space1.as_str()));
                    i += 1;
                    proof {
                        reveal(JsonValue::encoded_spec);
                    }
                    assert(out@ =~= head + list_encoded(elements@, i as nat));
                }
                out.push(']');
                assert(out@ =~= old(out)@ + self.encoded_spec());
            },
            JsonValue::Object { space0, elements } => {
                out.push('{');
                extend_chars(out, &chars_of(space0.as_str()));
                let ghost head = out@;
                let mut i: usize = 0;
                while i < elements.len()
                    invariant
                        i <= elements.len(),
                        *self == (JsonValue::Object { space0: *space0, elements: *elements }),
                        out@ == head + object_encoded(elements@, i as nat),
                    decreases elements.len() - i,
                {
                    if i > 0 {
                        out.push(',');
                    }
                    let e = &elements[i];
                    let ghost start = out@;
                    encode_member_head(e, out);
                    proof {
                        assert(self->Object_elements == *elements);
                        assert(decreases_to!(*self => self->Object_elements));
                        assert(decreases_to!(*elements => elements@[i as int]));
                    }
                    e.value.encode_into(out);
                    extend_chars(out, &chars_of(e.space3.as_str()));
                    i += 1;
                    proof {
                        reveal(JsonValue::encoded_spec);
                    }
                    assert(out@ =~= head + object_encoded(elements@, i as nat));
                }
                out.push('}');
                assert(out@ =~= old(out)@ + self.encoded_spec());
            },
        }
    }

    /// The value as it was written.
    pub fn encoded(&self) -> (r: String)
        ensures
            r@ == self.encoded_spec(),
    {
        let mut out: Vec<char> = Vec::new();
        self.encode_into(&mut out);
        string_of(&out)
    }
}

} // verus!
