use impostor::asserts::predicate::{try_into_json, Number, Predicate};
use impostor::asserts::query::Query;
use impostor::asserts::{Assert, AssertCompilationError};
use impostor::ast::{Bytes, PredicateValue, Pos, SourceInfo, Template, TemplateElement};
use impostor::compile;
use impostor::decimal::Decimal;
use impostor::compile_ast;
use impostor::entry::{compile_body, Entry, EntryCompilationError};
use impostor::error::Error;
use impostor::json::Json;
use impostor::parser::error::{JsonError, ParseError};
use impostor::parser::parse_impostor_file;
use impostor::request::{Request, Response};
use impostor::template::{execute, StringOrTemplate, TemplateExecutionError};

fn get(path: &str) -> Request {
    Request {
        method: "GET".to_string(),
        path: path.to_string(),
        query: None,
        headers: vec![],
        body: vec![],
    }
}

fn parse_error(contents: &str) -> impostor::parser::error::Error {
    match compile(contents) {
        Err(Error::ParseError(e)) => e,
        other => panic!("expected a parse error, got {:?}", other.map(|_| ())),
    }
}

fn entry_error(contents: &str) -> EntryCompilationError {
    match compile(contents) {
        Err(Error::EntryCompilationError(e)) => e,
        other => panic!("expected an entry error, got {:?}", other.map(|_| ())),
    }
}

#[test]
fn invalid_status_code_is_refused() {
    let error = entry_error("GET /a\nHTTP 99\n");
    assert_eq!(error, EntryCompilationError::InvalidStatusCode(99));
    assert_eq!(error.to_string(), "invalid status code: 99");
    assert_eq!(entry_error("GET /a\nHTTP 1000\n"), EntryCompilationError::InvalidStatusCode(1000));
    assert!(compile("GET /a\nHTTP 100\n").is_ok());
    assert!(compile("GET /a\nHTTP 999\n").is_ok());
    assert_eq!(
        Error::EntryCompilationError(error).to_string(),
        "entry compilation error: invalid status code: 99"
    );
}

#[test]
fn invalid_header_name_is_refused() {
    let error = entry_error("GET /a\nHTTP 200\nbad@name: x\n");
    assert_eq!(
        error,
        EntryCompilationError::InvalidHeaderName("invalid HTTP header name".to_string())
    );
    assert_eq!(error.to_string(), "invalid header name: invalid HTTP header name");
}

#[test]
fn header_names_are_put_in_lower_case() {
    let table = compile("GET /a\nHTTP 200\nX-UPPER-Case: Value\n").unwrap();
    let response = table.dispatch(&get("/a"));
    assert_eq!(response.headers, vec![("x-upper-case".to_string(), "Value".to_string())]);
}

#[test]
fn a_method_without_filter_is_refused() {
    match compile("PURGE /a\nHTTP 200\n") {
        Err(Error::InvalidMethod(m)) => {
            assert_eq!(m, "no `MethodFilter` for `PURGE`");
            assert_eq!(
                Error::InvalidMethod(m).to_string(),
                "invalid method: no `MethodFilter` for `PURGE`"
            );
        }
        other => panic!("expected an invalid method, got {:?}", other.map(|_| ())),
    }
    for method in ["CONNECT", "DELETE", "GET", "HEAD", "OPTIONS", "PATCH", "POST", "PUT", "TRACE"]
    {
        assert!(compile(&format!("{} /a\nHTTP 200\n", method)).is_ok());
    }
}

#[test]
fn a_method_that_is_no_token_is_refused() {
    let mut file = parse_impostor_file("GET /a\nHTTP 200\n").unwrap();
    file.entries[0].request.method.0 = "GE T".to_string();
    match compile_ast(file) {
        Err(Error::EntryCompilationError(e)) => {
            assert_eq!(e, EntryCompilationError::InvalidMethod("GE T".to_string()));
            assert_eq!(e.to_string(), "invalid method: GE T");
        }
        other => panic!("expected an invalid method, got {:?}", other.map(|_| ())),
    }
}

#[test]
fn assert_errors_are_reported() {
    let error = entry_error("GET /a\n[Asserts]\nsha256 exists\nHTTP 200\n");
    assert_eq!(
        error,
        EntryCompilationError::AssertCompilationError(AssertCompilationError::InvalidQueryType)
    );
    assert_eq!(error.to_string(), "invalid assert: invalid query type");

    let error = entry_error("GET /a\n[Asserts]\nheader \"d\" isDate\nHTTP 200\n");
    assert_eq!(
        error,
        EntryCompilationError::AssertCompilationError(AssertCompilationError::InvalidPredicate)
    );
    assert_eq!(error.to_string(), "invalid assert: invalid predicate");

    let error = entry_error("GET /a\n[Asserts]\nheader \"d\" > \"1\"\nHTTP 200\n");
    assert_eq!(
        error,
        EntryCompilationError::AssertCompilationError(
            AssertCompilationError::InvalidPredicateValue("expected number".to_string())
        )
    );
    assert_eq!(error.to_string(), "invalid assert: invalid predicate value - expected number");

    let error = entry_error("GET /a\n[Asserts]\nheader \"d\" startsWith 1\nHTTP 200\n");
    assert_eq!(
        error,
        EntryCompilationError::AssertCompilationError(
            AssertCompilationError::InvalidPredicateValue("expected string".to_string())
        )
    );

    let error = entry_error("GET /a\n[Asserts]\nheader \"d\" matches \"a+\"\nHTTP 200\n");
    assert_eq!(
        error,
        EntryCompilationError::AssertCompilationError(
            AssertCompilationError::InvalidPredicateValue("expected regex".to_string())
        )
    );

    let error = entry_error("GET /a\n[Asserts]\nheader \"d\" == /a+/\nHTTP 200\n");
    assert_eq!(
        error,
        EntryCompilationError::AssertCompilationError(
            AssertCompilationError::InvalidPredicateValue("unsupported type".to_string())
        )
    );
}

#[test]
fn unimplemented_features_are_compile_errors() {
    let error = entry_error("GET /a\n[Asserts]\nbody exists\nHTTP 200\n");
    assert_eq!(error, EntryCompilationError::NotYetImplemented("body query".to_string()));
    assert_eq!(error.to_string(), "not yet implemented: body query");
    assert_eq!(
        entry_error("GET /a\n[Asserts]\njsonpath \"$.a\" == 1\nHTTP 200\n"),
        EntryCompilationError::NotYetImplemented("jsonpath query".to_string())
    );
    assert_eq!(
        entry_error("GET /a\n[Asserts]\nheader \"n\" > 99999999999999999999\nHTTP 200\n"),
        EntryCompilationError::NotYetImplemented("big integer operand".to_string())
    );
    assert_eq!(
        entry_error("GET /a\n[Asserts]\nheader \"n\" == 99999999999999999999\nHTTP 200\n"),
        EntryCompilationError::AssertCompilationError(
            AssertCompilationError::InvalidPredicateValue(
                "big integers are not supported".to_string()
            )
        )
    );
    assert_eq!(
        entry_error("GET /a\nHTTP 200\nbase64,aGVsbG8=;\n"),
        EntryCompilationError::NotYetImplemented("base64 body".to_string())
    );
    assert_eq!(
        entry_error("GET /a\nHTTP 200\nhex,cafe;\n"),
        EntryCompilationError::NotYetImplemented("hex body".to_string())
    );
    assert_eq!(
        entry_error("GET /a\nHTTP 200\nfile,data.bin;\n"),
        EntryCompilationError::NotYetImplemented("file body".to_string())
    );
}

#[test]
fn the_first_failing_entry_is_the_error() {
    let error = entry_error("GET /a\nHTTP 200\n\nGET /b\nHTTP 42\n\nGET /c\nHTTP 43\n");
    assert_eq!(error, EntryCompilationError::InvalidStatusCode(42));
}

#[test]
fn parse_errors_carry_place_and_cause() {
    let error = parse_error("GET /a\nHTTP 200\n[1, 2,]\n");
    assert_eq!(error.inner, ParseError::Json(JsonError::TrailingComma));
    assert!(!error.recoverable);
    assert_eq!((error.pos.line, error.pos.column), (3, 6));
    assert_eq!(error.to_string(), "3:6: trailing comma is not allowed");
    assert_eq!(
        Error::ParseError(error).to_string(),
        "parse error: 3:6: trailing comma is not allowed"
    );

    let error = parse_error("get /a\nHTTP 200\n");
    assert_eq!(error.inner, ParseError::Method { name: "get".to_string() });
    assert_eq!((error.pos.line, error.pos.column), (1, 1));

    let error = parse_error("GET /a\n");
    assert_eq!(error.inner, ParseError::Version);
    assert_eq!((error.pos.line, error.pos.column), (2, 1));

    let error = parse_error("GET /a\nHTTP abc\n");
    assert_eq!(error.inner, ParseError::Status);
    assert_eq!((error.pos.line, error.pos.column), (2, 6));

    let error = parse_error("GET /a\nHTTP 70000\n");
    assert_eq!(error.inner, ParseError::Status);

    let error = parse_error("GET a\nHTTP 200\n");
    assert_eq!(error.inner, ParseError::Expecting { value: "/".to_string() });
    assert_eq!((error.pos.line, error.pos.column), (1, 5));

    let error = parse_error("GET /a\n[Foo]\nHTTP 200\n");
    assert_eq!(error.inner, ParseError::ResponseSectionName { name: "Foo".to_string() });
    assert_eq!((error.pos.line, error.pos.column), (2, 2));
    assert!(!error.recoverable);

    let error = parse_error("GET /a\n[Asserts]\nheader \"a\" ==\nHTTP 200\n");
    assert_eq!(error.inner, ParseError::PredicateValue);

    let error = parse_error("GET /a\n[Asserts]\nheader \"a\" frobnicates\nHTTP 200\n");
    assert_eq!(error.inner, ParseError::Predicate);
    assert_eq!((error.pos.line, error.pos.column), (3, 12));

    let error = parse_error("GET /a\n[Asserts]\nheader \"a\" matches /(/\nHTTP 200\n");
    assert!(matches!(error.inner, ParseError::RegexExpr { .. }));

    let error = parse_error("GET /a\n[Asserts]\ncookie \"a[Nope]\" exists\nHTTP 200\n");
    assert_eq!(error.inner, ParseError::InvalidCookieAttribute);

    let error = parse_error("GET /a\nHTTP 200\n`a\\qb`\n");
    assert_eq!(error.inner, ParseError::EscapeChar);

    let error = parse_error("GET /a\n[Asserts]\nheader \"a\" == {{ }}\nHTTP 200\n");
    assert_eq!(error.inner, ParseError::TemplateVariable);
    assert_eq!((error.pos.line, error.pos.column), (3, 18));

    let error = parse_error("GET /a\nHTTP 200\n```\nnever closed\n");
    assert_eq!(error.inner, ParseError::Multiline);

    let error = parse_error("GET /a\nHTTP 200\nhex,abc;\n");
    assert_eq!(error.inner, ParseError::OddNumberOfHexDigits);

    let error = parse_error("GET /a\nHTTP 200\n<a><b></a>\n");
    assert_eq!(error.inner, ParseError::Xml);

    let error = parse_error("GET /a\nHTTP 200\n{\"a\": }\n");
    assert_eq!(error.inner, ParseError::Json(JsonError::ExpectingElement));

    let error = parse_error("GET /a\nHTTP 200\n{} trailing\n");
    assert_eq!(
        error.inner,
        ParseError::Expecting { value: "line_terminator".to_string() }
    );
}

#[test]
fn an_empty_section_name_gives_way_to_a_json_body() {
    let table = compile("GET /a\nHTTP 200\n[]\n").unwrap();
    assert_eq!(table.dispatch(&get("/a")).body, b"[]");
}

#[test]
fn bodies_of_every_kind_are_rendered() {
    let table = compile("GET /a\nHTTP 200\n{ \"k\" : [1, 2.5e3, true, null, \"s\\n\"] }\n").unwrap();
    assert_eq!(table.dispatch(&get("/a")).body, b"{ \"k\" : [1, 2.5e3, true, null, \"s\\n\"] }");

    let table = compile("GET /a\nHTTP 200\n<?xml version=\"1.0\"?>\n<a x=\"1\"><b/>text</a>\n").unwrap();
    assert_eq!(
        table.dispatch(&get("/a")).body,
        b"<?xml version=\"1.0\"?>\n<a x=\"1\"><b/>text</a>"
    );

    let table = compile("GET /a\nHTTP 200\n```\nline one\nline two\n```\n").unwrap();
    assert_eq!(table.dispatch(&get("/a")).body, b"line one\nline two\n");

    let table = compile("GET /a\nHTTP 200\n`caf\u{e9} \\` tick`\n").unwrap();
    assert_eq!(table.dispatch(&get("/a")).body, "caf\u{e9} \\` tick".as_bytes());

    let table = compile("GET /a\nHTTP 204\n").unwrap();
    assert_eq!(table.dispatch(&get("/a")), Response { status: 204, headers: vec![], body: vec![] });
}

#[test]
fn a_template_with_a_variable_gives_a_500() {
    let table = compile("GET /a\nHTTP 200\nX-One: 1\n`hello {{name}}`\n").unwrap();
    let response = table.dispatch(&get("/a"));
    assert_eq!(
        response,
        Response {
            status: 500,
            headers: vec![],
            body: b"template error: unknown variable: name".to_vec(),
        }
    );

    let table = compile("GET /a\nHTTP 200\nX-One: 1\nX-Two: {{ who }}\n`body`\n").unwrap();
    let response = table.dispatch(&get("/a"));
    assert_eq!(
        response,
        Response {
            status: 500,
            headers: vec![],
            body: b"template error: internal error: unknown variable: who".to_vec(),
        }
    );
}

#[test]
fn a_header_value_that_cannot_be_sent_gives_a_500() {
    let table = compile("GET /a\nHTTP 200\nX-One: a\u{1}b\n").unwrap();
    let response = table.dispatch(&get("/a"));
    assert_eq!(
        response,
        Response {
            status: 500,
            headers: vec![],
            body: b"template error: internal error: failed to parse header value".to_vec(),
        }
    );
}

#[test]
fn templates_render_in_a_context() {
    let file = parse_impostor_file("GET /a\nHTTP 200\n`Hi {{ who }}, {{who}}!`\n").unwrap();
    let template = match file.entries.into_iter().next().unwrap().response.body.unwrap().value {
        Bytes::OnelineString(t) => t,
        other => panic!("expected a string, got {:?}", other),
    };
    assert_eq!(template.elements.len(), 5);
    assert!(matches!(template.elements[1], TemplateElement::Expression(_)));
    assert_eq!(template.encoded(), "`Hi {{ who }}, {{who}}!`");
    assert_eq!(template.to_string(), "Hi {{ who }}, {{who}}!");
    let context = vec![
        ("other".to_string(), "x".to_string()),
        ("who".to_string(), "Ann".to_string()),
        ("who".to_string(), "Bob".to_string()),
    ];
    assert_eq!(execute(&template, &context).ok().unwrap(), "Hi Ann, Ann!");
    match execute(&template, &vec![]) {
        Err(TemplateExecutionError::UnknownVariable(name)) => assert_eq!(name, "who"),
        Ok(text) => panic!("rendered {}", text),
    }
    match StringOrTemplate::from_ast_template(template) {
        StringOrTemplate::Template(t) => {
            let error = StringOrTemplate::Template(t).execute().err().unwrap();
            assert_eq!(error.to_string(), "unknown variable: who");
        }
        StringOrTemplate::String(s) => panic!("static {}", s),
    }
}

#[test]
fn static_templates_lose_their_delimiters() {
    let file = parse_impostor_file("GET /a\nHTTP 200\n`plain`\n").unwrap();
    let body = file.entries.into_iter().next().unwrap().response.body.unwrap().value;
    assert_eq!(compile_body(body), StringOrTemplate::String("plain".to_string()));
}

#[test]
fn operands_lose_one_layer_of_quotes() {
    let file =
        parse_impostor_file("GET /a\n[Asserts]\nheader \"a\" == \"'x'\"\nHTTP 200\n").unwrap();
    let entry = Entry::try_from(file.entries.into_iter().next().unwrap()).ok().unwrap();
    assert_eq!(
        entry.asserts,
        vec![Assert {
            query: Query::Header("a".to_string()),
            predicate: Predicate::Equal(Json::String("'x'".to_string())),
            not: false,
        }]
    );
    assert_eq!(try_into_json(PredicateValue::Null).ok().unwrap(), Json::Null);
    assert_eq!(try_into_json(PredicateValue::Bool(true)).ok().unwrap(), Json::Bool(true));
}

#[test]
fn asserts_come_before_header_lines() {
    let file = parse_impostor_file(
        "GET /a\nx-h: v\n[Asserts]\npath == \"/a\"\nqueryparam \"n\" not >= 1.5\nHTTP 200\n",
    )
    .unwrap();
    let entry = Entry::try_from(file.entries.into_iter().next().unwrap()).ok().unwrap();
    assert_eq!(entry.asserts.len(), 3);
    assert_eq!(entry.asserts[0].query, Query::Path);
    assert_eq!(entry.asserts[1].query, Query::QueryParam("n".to_string()));
    assert!(entry.asserts[1].not);
    assert_eq!(
        entry.asserts[1].predicate,
        Predicate::GreaterThanOrEqual(Number::Float(
            impostor::decimal::Decimal::parse("1.5").unwrap()
        ))
    );
    assert_eq!(
        entry.asserts[2],
        Assert {
            query: Query::Header("x-h".to_string()),
            predicate: Predicate::Equal(Json::String("v".to_string())),
            not: false,
        }
    );
    assert_eq!((entry.path.as_str(), entry.method.as_str(), entry.status_code), ("/a", "GET", 200));
}

#[test]
fn escapes_are_decoded_in_values_and_kept_as_written() {
    let file =
        parse_impostor_file("GET /a\nHTTP 200\n`\\u{e9}\\t\\u{1F600}\\\\`\n").unwrap();
    let template = match file.entries.into_iter().next().unwrap().response.body.unwrap().value {
        Bytes::OnelineString(t) => t,
        other => panic!("expected a string, got {:?}", other),
    };
    assert_eq!(
        template.elements,
        vec![TemplateElement::String {
            value: "\u{e9}\t\u{1F600}\\".to_string(),
            encoded: "\\u{e9}\\t\\u{1F600}\\\\".to_string(),
        }]
    );
    let error = parse_error("GET /a\nHTTP 200\n`\\u{D800}`\n");
    assert_eq!(error.inner, ParseError::Unicode);
    let error = parse_error("GET /a\nHTTP 200\n`\\u{110000}`\n");
    assert_eq!(error.inner, ParseError::Unicode);
}

#[test]
fn section_names_hold_letters_and_digits_of_any_script() {
    let mut reader = impostor::parser::reader::Reader::new("[Äbc9]");
    assert_eq!(impostor::parser::sections::section_name(&mut reader).unwrap(), "Äbc9");
    let mut reader = impostor::parser::reader::Reader::new("[a-b]");
    let error = impostor::parser::sections::section_name(&mut reader).err().unwrap();
    assert!(error.recoverable);
    assert_eq!((error.pos.line, error.pos.column), (1, 3));
}

#[test]
fn cookie_attributes_are_named_in_any_case() {
    let file = parse_impostor_file(
        "GET /a\n[Asserts]\ncookie \"sid[Max-Age]\" exists\nHTTP 200\n",
    )
    .unwrap();
    let sections = &file.entries[0].request.sections;
    match &sections[0].value {
        impostor::ast::RequestSectionValue::Asserts(asserts) => match &asserts[0].query.value {
            impostor::ast::QueryValue::Cookie { expr, .. } => {
                assert_eq!(expr.name.to_string(), "sid");
                assert_eq!(
                    expr.attribute.as_ref().unwrap().name,
                    impostor::ast::CookieAttributeName::MaxAge("Max-Age".to_string())
                );
            }
            other => panic!("expected a cookie query, got {:?}", other),
        },
        _ => panic!("expected asserts"),
    }
}

#[test]
fn positions_count_lines_and_columns() {
    let mut reader = impostor::parser::reader::Reader::new("a\nbc\u{0301}d");
    let mut seen = vec![];
    while let Some(c) = reader.read() {
        seen.push((c, reader.state.cursor, reader.state.pos.line, reader.state.pos.column));
    }
    assert_eq!(
        seen,
        vec![
            ('a', 1, 1, 2),
            ('\n', 2, 2, 1),
            ('b', 3, 2, 2),
            ('c', 4, 2, 3),
            ('\u{0301}', 5, 2, 3),
            ('d', 6, 2, 4),
        ]
    );
    assert!(reader.is_eof());
    assert_eq!(reader.peek(), None);
}

#[test]
fn decimals_are_read_in_normal_form() {
    let d = Decimal::parse("-0012.3400").unwrap();
    assert_eq!((d.negative, d.integer.clone(), d.fraction.clone()), (true, vec![1, 2], vec![3, 4]));
    assert_eq!(d.floor_order(-13), 0);
    assert_eq!(d.ceil_order(-12), 0);
    assert_eq!(d.floor_order(-12), -1);
    assert_eq!(d.compare(&Decimal::parse("-12.34").unwrap()), 0);
    assert!(d.equals(&Decimal::parse("-12.34").unwrap()));
    assert_eq!(d.compare(&Decimal::parse("-12.3").unwrap()), -1);
    assert_eq!(Decimal::parse("100").unwrap().compare(&Decimal::parse("99.999").unwrap()), 1);
    assert_eq!(Decimal::parse("0.5").unwrap().compare(&Decimal::parse("0.25").unwrap()), 1);
    let zero = Decimal::parse("-0.000").unwrap();
    assert_eq!((zero.negative, zero.integer.len(), zero.fraction.len()), (false, 0, 0));
    for text in ["", "-", ".5", "1.", "1.2.3", "1e5", "+1", " 1", "1 "] {
        assert!(Decimal::parse(text).is_none(), "{:?}", text);
    }
    let big = Decimal::parse("9223372036854775808").unwrap();
    assert_eq!(big.floor_order(i64::MAX), 1);
    let small = Decimal::parse("-9223372036854775808").unwrap();
    assert_eq!(small.floor_order(i64::MIN), 0);
    assert_eq!(Decimal::parse("-9223372036854775808.5").unwrap().floor_order(i64::MIN), -1);
    assert_eq!(Decimal::parse("-9223372036854775808.5").unwrap().ceil_order(i64::MIN), 0);
}

#[test]
fn braces_that_hold_no_name_are_literal_text() {
    for body in ["{{ }}", "{{a b}}", "{{open", "a{b}c", "{{x}", "}}{{"] {
        let table = compile(&format!("GET /a\nHTTP 200\n`{}`\n", body)).unwrap();
        assert_eq!(table.dispatch(&get("/a")).body, body.as_bytes(), "{:?}", body);
    }
    let file = parse_impostor_file("GET /a\nHTTP 200\n`{{ }}{{ok}}`\n").unwrap();
    match file.entries.into_iter().next().unwrap().response.body.unwrap().value {
        Bytes::OnelineString(t) => {
            assert_eq!(t.elements.len(), 2);
            assert_eq!(
                t.elements[0],
                TemplateElement::String { value: "{{ }}".to_string(), encoded: "{{ }}".to_string() }
            );
            assert!(matches!(t.elements[1], TemplateElement::Expression(_)));
            assert_eq!(t.encoded(), "`{{ }}{{ok}}`");
        }
        other => panic!("expected a string, got {:?}", other),
    }
}

#[test]
fn templates_are_kept_as_they_were_written() {
    let source = "GET /a\nx-key: some  value  # comment\nHTTP 200\nX-A: \"q\" {{v}} \\# end   \n";
    let file = parse_impostor_file(source).unwrap();
    let entry = &file.entries[0];
    assert_eq!(entry.request.headers[0].key.encoded(), "x-key");
    assert_eq!(entry.request.headers[0].value.encoded(), "some  value");
    assert_eq!(entry.response.headers[0].value.encoded(), "\"q\" {{v}} \\# end");
    assert_eq!(entry.response.headers[0].value.to_string(), "\"q\" {{v}} # end");
}

#[test]
fn the_rarer_parse_errors() {
    let error = parse_error("GET/a\nHTTP 200\n");
    assert_eq!(error.inner, ParseError::Space);
    assert_eq!((error.pos.line, error.pos.column), (1, 4));
    assert_eq!(error.to_string(), "1:4: expecting a space");

    let error = parse_error("GET /a\n[Asserts]\nheader \"a\" matches /abc\nHTTP 200\n");
    assert_eq!(error.inner, ParseError::Eof);

    let error = parse_error("GET /a\nHTTP 200\nfile,;\n");
    assert_eq!(error.inner, ParseError::Filename);
    assert_eq!((error.pos.line, error.pos.column), (3, 6));

    let error = parse_error("GET /a\nHTTP 200\n`\\u{}`\n");
    assert_eq!(error.inner, ParseError::HexDigit);
    assert_eq!((error.pos.line, error.pos.column), (3, 5));

    let error = parse_error("GET /a\nHTTP 200\n\ntrailing text\n");
    assert_eq!(error.inner, ParseError::Method { name: "trailing".to_string() });
    assert_eq!((error.pos.line, error.pos.column), (4, 1));
}

#[test]
fn a_file_may_be_empty_or_hold_comments_only() {
    assert!(compile("").unwrap().routes.is_empty());
    assert!(compile("\n  # nothing here\n\n").unwrap().routes.is_empty());
    let table = compile("# first\nGET /a # the request\n# between\nHTTP 200 # the status\n").unwrap();
    assert_eq!(table.dispatch(&get("/a")).status, 200);
}

#[test]
fn quotes_that_are_content_are_kept() {
    let table = compile("GET /a\nHTTP 200\nETag: \"abc\"\nX-Q: 'q'\n").unwrap();
    let response = table.dispatch(&get("/a"));
    assert_eq!(
        response.headers,
        vec![
            ("etag".to_string(), "\"abc\"".to_string()),
            ("x-q".to_string(), "'q'".to_string()),
        ]
    );
}

#[test]
fn a_static_template_renders_as_the_template_does() {
    let quoted = |delimiter: Option<char>| Template {
        delimiter,
        elements: vec![TemplateElement::String {
            value: "\"a\"".to_string(),
            encoded: "\"a\"".to_string(),
        }],
        source_info: SourceInfo::new(Pos::new(1, 1), Pos::new(1, 4)),
    };
    for delimiter in [None, Some('`')] {
        let template = quoted(delimiter);
        let rendered = execute(&template, &vec![]).ok().unwrap();
        assert_eq!(rendered, "\"a\"");
        let compiled = StringOrTemplate::from_ast_template(template);
        assert_eq!(compiled, StringOrTemplate::String("\"a\"".to_string()));
        assert_eq!(compiled.execute().ok().unwrap(), rendered);
    }
}
