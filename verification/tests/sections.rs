use impostor::ast::{
    Assert, LineTerminator, Number, Pos, Predicate, PredicateFunc, PredicateFuncValue,
    PredicateValue, Query, QueryValue, RequestSection, RequestSectionValue, SourceInfo, Template,
    TemplateElement, Whitespace,
};
use impostor::parser::error::ParseError;
use impostor::parser::reader::Reader;
use impostor::parser::sections::{
    assert_line, capture, request_section, request_sections, section_name,
};

#[test]
fn test_section_name() {
    let mut reader = Reader::new("[SectionA]");
    assert_eq!(section_name(&mut reader).unwrap(), String::from("SectionA"));

    let mut reader = Reader::new("[]");
    assert!(section_name(&mut reader).err().unwrap().recoverable);
}

#[test]
fn test_asserts_section() {
    let mut reader = Reader::new("[Asserts]\nheader \"Location\" == \"https://google.fr\"\n");

    assert_eq!(
        request_section(&mut reader).unwrap(),
        RequestSection {
            line_terminators: vec![],
            space0: Whitespace {
                value: String::new(),
                source_info: SourceInfo::new(Pos::new(1, 1), Pos::new(1, 1)),
            },
            line_terminator0: LineTerminator {
                space0: Whitespace {
                    value: String::new(),
                    source_info: SourceInfo::new(Pos::new(1, 10), Pos::new(1, 10)),
                },
                comment: None,
                newline: Whitespace {
                    value: String::from("\n"),
                    source_info: SourceInfo::new(Pos::new(1, 10), Pos::new(2, 1)),
                },
            },
            value: RequestSectionValue::Asserts(vec![Assert {
                line_terminators: vec![],
                space0: Whitespace {
                    value: String::new(),
                    source_info: SourceInfo::new(Pos::new(2, 1), Pos::new(2, 1)),
                },
                query: Query {
                    source_info: SourceInfo::new(Pos::new(2, 1), Pos::new(2, 18)),
                    value: QueryValue::Header {
                        space0: Whitespace {
                            value: String::from(" "),
                            source_info: SourceInfo::new(Pos::new(2, 7), Pos::new(2, 8)),
                        },
                        name: Template {
                            delimiter: Some('"'),
                            elements: vec![TemplateElement::String {
                                value: "Location".to_string(),
                                encoded: "Location".to_string(),
                            }],
                            source_info: SourceInfo::new(Pos::new(2, 8), Pos::new(2, 18)),
                        },
                    },
                },
                filters: vec![],
                space1: Whitespace {
                    value: String::from(" "),
                    source_info: SourceInfo::new(Pos::new(2, 18), Pos::new(2, 19)),
                },
                predicate: Predicate {
                    not: false,
                    space0: Whitespace {
                        value: String::new(),
                        source_info: SourceInfo::new(Pos::new(2, 19), Pos::new(2, 19)),
                    },
                    predicate_func: PredicateFunc {
                        source_info: SourceInfo::new(Pos::new(2, 19), Pos::new(2, 41)),
                        value: PredicateFuncValue::Equal {
                            space0: Whitespace {
                                value: String::from(" "),
                                source_info: SourceInfo::new(Pos::new(2, 21), Pos::new(2, 22)),
                            },
                            value: PredicateValue::String(Template {
                                delimiter: Some('"'),
                                elements: vec![TemplateElement::String {
                                    value: "https://google.fr".to_string(),
                                    encoded: "https://google.fr".to_string(),
                                }],
                                source_info: SourceInfo::new(Pos::new(2, 22), Pos::new(2, 41)),
                            }),
                            operator: true,
                        },
                    },
                },
                line_terminator0: LineTerminator {
                    space0: Whitespace {
                        value: String::new(),
                        source_info: SourceInfo::new(Pos::new(2, 41), Pos::new(2, 41)),
                    },
                    comment: None,
                    newline: Whitespace {
                        value: String::from("\n"),
                        source_info: SourceInfo::new(Pos::new(2, 41), Pos::new(3, 1)),
                    },
                },
            }]),
            source_info: SourceInfo::new(Pos::new(1, 1), Pos::new(1, 10)),
        }
    );
}

#[test]
fn test_asserts_section_error() {
    let mut reader = Reader::new("x[Assertsx]\nheader Location == \"https://google.fr\"\n");
    let error = request_section(&mut reader).err().unwrap();
    assert_eq!(error.pos, Pos { line: 1, column: 1 });
    assert_eq!(
        error.inner,
        ParseError::Expecting {
            value: String::from("[")
        }
    );
    assert!(error.recoverable);

    let mut reader = Reader::new("[Assertsx]\nheader Location == \"https://google.fr\"\n");
    let error = request_section(&mut reader).err().unwrap();
    assert_eq!(error.pos, Pos { line: 1, column: 2 });
    assert_eq!(
        error.inner,
        ParseError::ResponseSectionName {
            name: String::from("Assertsx")
        }
    );
    assert!(!error.recoverable);
}

#[test]
fn test_capture() {
    let mut reader = Reader::new("url: header \"Location\"");
    let capture0 = capture(&mut reader).unwrap();

    assert_eq!(
        capture0.name,
        Template {
            delimiter: None,
            elements: vec![TemplateElement::String {
                value: "url".to_string(),
                encoded: "url".to_string(),
            }],
            source_info: SourceInfo::new(Pos::new(1, 1), Pos::new(1, 4)),
        },
    );
    assert_eq!(
        capture0.query,
        Query {
            source_info: SourceInfo::new(Pos::new(1, 6), Pos::new(1, 23)),
            value: QueryValue::Header {
                space0: Whitespace {
                    value: String::from(" "),
                    source_info: SourceInfo::new(Pos::new(1, 12), Pos::new(1, 13)),
                },
                name: Template {
                    delimiter: Some('"'),
                    elements: vec![TemplateElement::String {
                        value: "Location".to_string(),
                        encoded: "Location".to_string(),
                    }],
                    source_info: SourceInfo::new(Pos::new(1, 13), Pos::new(1, 23)),
                },
            },
        }
    );
}

#[test]
fn test_capture_with_filter() {
    let mut reader = Reader::new("token: header \"Location\" regex \"token=(.*)\"");
    let capture0 = capture(&mut reader).unwrap();

    assert_eq!(
        capture0.query,
        Query {
            source_info: SourceInfo::new(Pos::new(1, 8), Pos::new(1, 25)),
            value: QueryValue::Header {
                space0: Whitespace {
                    value: String::from(" "),
                    source_info: SourceInfo::new(Pos::new(1, 14), Pos::new(1, 15)),
                },
                name: Template {
                    delimiter: Some('"'),
                    elements: vec![TemplateElement::String {
                        value: "Location".to_string(),
                        encoded: "Location".to_string(),
                    }],
                    source_info: SourceInfo::new(Pos::new(1, 15), Pos::new(1, 25)),
                },
            },
        }
    );
    assert_eq!(reader.state.cursor, 43);
}

#[test]
fn test_capture_with_filter_error() {
    let mut reader = Reader::new("token: header \"Location\" regex ");
    let error = capture(&mut reader).err().unwrap();
    assert_eq!(
        error.pos,
        Pos {
            line: 1,
            column: 32,
        }
    );
    assert_eq!(
        error.inner,
        ParseError::Expecting {
            value: "\" or /".to_string()
        }
    );
    assert!(!error.recoverable);

    let mut reader = Reader::new("token: header \"Location\" xxx");
    let error = capture(&mut reader).err().unwrap();
    assert_eq!(
        error.pos,
        Pos {
            line: 1,
            column: 26,
        }
    );
    assert_eq!(
        error.inner,
        ParseError::Expecting {
            value: "line_terminator".to_string()
        }
    );
    assert!(!error.recoverable);
}

#[test]
fn test_assert() {
    let mut reader = Reader::new("header \"Location\" == \"https://google.fr\"");
    let assert0 = assert_line(&mut reader).unwrap();

    assert_eq!(
        assert0.query,
        Query {
            source_info: SourceInfo::new(Pos::new(1, 1), Pos::new(1, 18)),
            value: QueryValue::Header {
                space0: Whitespace {
                    value: String::from(" "),
                    source_info: SourceInfo::new(Pos::new(1, 7), Pos::new(1, 8)),
                },
                name: Template {
                    delimiter: Some('"'),
                    elements: vec![TemplateElement::String {
                        value: "Location".to_string(),
                        encoded: "Location".to_string(),
                    }],
                    source_info: SourceInfo::new(Pos::new(1, 8), Pos::new(1, 18)),
                },
            },
        }
    );
}

#[test]
fn test_assert_jsonpath() {
    let mut reader = Reader::new("jsonpath \"$.errors\" == 5");

    assert_eq!(
        assert_line(&mut reader).unwrap().predicate,
        Predicate {
            not: false,
            space0: Whitespace {
                value: String::new(),
                source_info: SourceInfo::new(Pos::new(1, 21), Pos::new(1, 21)),
            },
            predicate_func: PredicateFunc {
                source_info: SourceInfo::new(Pos::new(1, 21), Pos::new(1, 25)),
                value: PredicateFuncValue::Equal {
                    space0: Whitespace {
                        value: String::from(" "),
                        source_info: SourceInfo::new(Pos::new(1, 23), Pos::new(1, 24)),
                    },
                    value: PredicateValue::Number(Number::Integer(5)),
                    operator: true,
                },
            },
        }
    );
}

#[test]
fn request_sections_reads_both_kinds() {
    let mut reader = Reader::new(
        "[Captures]\ntoken: header \"x-token\"\n[Asserts]\npath startsWith \"/a\"\nbody exists\n",
    );
    let sections = request_sections(&mut reader).unwrap();
    assert_eq!(sections.len(), 2);
    match &sections[0].value {
        RequestSectionValue::Captures(captures) => assert_eq!(captures.len(), 1),
        _ => panic!("expected captures"),
    }
    match &sections[1].value {
        RequestSectionValue::Asserts(asserts) => {
            assert_eq!(asserts.len(), 2);
            assert_eq!(asserts[0].query.value, QueryValue::Path);
            assert_eq!(asserts[1].query.value, QueryValue::Body);
            assert_eq!(asserts[1].predicate.predicate_func.value, PredicateFuncValue::Exist);
        }
        _ => panic!("expected asserts"),
    }
    assert_eq!(reader.state.cursor, reader.buffer.len());
}

#[test]
fn request_sections_stops_without_a_section() {
    let mut reader = Reader::new("HTTP 200\n");
    let sections = request_sections(&mut reader).unwrap();
    assert!(sections.is_empty());
    assert_eq!(reader.state.cursor, 0);
    assert_eq!(reader.state.pos, Pos::new(1, 1));
}

#[test]
fn section_name_without_closing_bracket_is_recoverable() {
    let mut reader = Reader::new("[Asserts\n");
    let error = section_name(&mut reader).err().unwrap();
    assert!(error.recoverable);
    assert_eq!(error.pos, Pos::new(1, 9));
    assert_eq!(error.inner, ParseError::Expecting { value: "]".to_string() });
    assert_eq!(reader.state.cursor, 0);
}

#[test]
fn empty_section_name_is_reported_at_the_bracket() {
    let mut reader = Reader::new("\n  []");
    let error = request_section(&mut reader).err().unwrap();
    assert!(error.recoverable);
    assert_eq!(error.pos, Pos::new(2, 3));
    assert_eq!(
        error.inner,
        ParseError::Expecting { value: "a valid section name".to_string() }
    );
    assert_eq!(reader.state.cursor, 0);
}
