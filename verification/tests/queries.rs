use impostor::asserts::predicate::Predicate;
use impostor::asserts::query::{Query, QueryApplicationError};
use impostor::asserts::{Assert, AssertionError};
use impostor::json::Json;
use impostor::request::Request;

fn request(query: Option<&str>, headers: &[(&str, &[u8])]) -> Request {
    Request {
        method: "GET".to_string(),
        path: "/".to_string(),
        query: query.map(|q| q.to_string()),
        headers: headers.iter().map(|(k, v)| (k.to_string(), v.to_vec())).collect(),
        body: vec![],
    }
}

fn create_test_request() -> Request {
    request(
        Some("foo=bar&baz=qux"),
        &[("x-foo", b"bar"), ("x-baz", b"qux"), ("cookie", b"foo=bar; baz=qux")],
    )
}

#[test]
fn test_assert_header() {
    let assert = Assert {
        query: Query::Header("foo".to_string()),
        predicate: Predicate::Equal(Json::String("bar".to_string())),
        not: false,
    };

    let request0 = request(None, &[("foo", b"bar")]);
    assert!(assert.apply(&request0).unwrap());

    let request0 = request(None, &[("foo", b"baz")]);
    assert!(!assert.apply(&request0).unwrap());
}

#[test]
fn test_assert_header_not() {
    let assert = Assert {
        query: Query::Header("foo".to_string()),
        predicate: Predicate::Equal(Json::String("bar".to_string())),
        not: true,
    };

    let request0 = request(None, &[("foo", b"bar")]);
    assert!(!assert.apply(&request0).unwrap());

    let request0 = request(None, &[("foo", b"baz")]);
    assert!(assert.apply(&request0).unwrap());
}

#[test]
fn test_assert_query_param() {
    let assert = Assert {
        query: Query::QueryParam("foo".to_string()),
        predicate: Predicate::Equal(Json::String("bar".to_string())),
        not: false,
    };

    let request0 = request(Some("foo=bar"), &[]);
    assert!(assert.apply(&request0).unwrap());

    let request0 = request(Some("foo=baz"), &[]);
    assert!(!assert.apply(&request0).unwrap());
}

#[test]
fn test_assert_header_value_invalid() {
    let assert = Assert {
        query: Query::Header("foo".to_string()),
        predicate: Predicate::Equal(Json::String("bar".to_string())),
        not: false,
    };

    let request0 = request(None, &[("foo", "世界".as_bytes())]);
    assert!(assert.apply(&request0).is_err());
}

#[test]
fn test_query_application_for_query_param_foo() {
    let request = create_test_request();
    let query = Query::QueryParam("foo".to_string());
    let result = query.apply(&request).unwrap();
    assert_eq!(result, Json::String("bar".to_string()));
}

#[test]
fn test_query_application_for_query_param_baz() {
    let request = create_test_request();
    let query = Query::QueryParam("baz".to_string());
    let result = query.apply(&request).unwrap();
    assert_eq!(result, Json::String("qux".to_string()));
}

#[test]
fn test_query_application_for_nonexistent_query_param() {
    let request = create_test_request();
    let query = Query::QueryParam("quux".to_string());
    let result = query.apply(&request).unwrap();
    assert_eq!(result, Json::Null);
}

#[test]
fn test_query_application_for_header_x_foo() {
    let request = create_test_request();
    let query = Query::Header("x-foo".to_string());
    let result = query.apply(&request).unwrap();
    assert_eq!(result, Json::String("bar".to_string()));
}

#[test]
fn test_query_application_for_header_x_baz() {
    let request = create_test_request();
    let query = Query::Header("x-baz".to_string());
    let result = query.apply(&request).unwrap();
    assert_eq!(result, Json::String("qux".to_string()));
}

#[test]
fn test_query_application_for_nonexistent_header() {
    let request = create_test_request();
    let query = Query::Header("x-quux".to_string());
    let result = query.apply(&request).unwrap();
    assert_eq!(result, Json::Null);
}

#[test]
fn test_query_application_for_cookie_foo() {
    let request = create_test_request();
    let query = Query::Cookie("foo".to_string());
    let result = query.apply(&request).unwrap();
    assert_eq!(result, Json::String("bar".to_string()));
}

#[test]
fn test_query_application_for_cookie_baz() {
    let request = create_test_request();
    let query = Query::Cookie("baz".to_string());
    let result = query.apply(&request).unwrap();
    assert_eq!(result, Json::String("qux".to_string()));
}

#[test]
fn test_query_application_for_nonexistent_cookie() {
    let request = create_test_request();
    let query = Query::Cookie("quux".to_string());
    let result = query.apply(&request).unwrap();
    assert_eq!(result, Json::Null);
}

#[test]
fn path_query_gives_the_path() {
    let mut r = create_test_request();
    r.path = "/users/42".to_string();
    assert_eq!(Query::Path.apply(&r).unwrap(), Json::String("/users/42".to_string()));
}

#[test]
fn header_query_ignores_the_case_of_its_name() {
    let r = create_test_request();
    assert_eq!(
        Query::Header("X-Foo".to_string()).apply(&r).unwrap(),
        Json::String("bar".to_string())
    );
    // A name that cannot name a header finds nothing.
    assert_eq!(Query::Header("x foo".to_string()).apply(&r).unwrap(), Json::Null);
    assert_eq!(Query::Header("".to_string()).apply(&r).unwrap(), Json::Null);
}

#[test]
fn header_query_takes_the_first_value() {
    let r = request(None, &[("x-a", b"1"), ("x-b", b"2"), ("x-a", b"3")]);
    assert_eq!(Query::Header("x-a".to_string()).apply(&r).unwrap(), Json::String("1".to_string()));
}

#[test]
fn header_that_is_no_text_is_an_error_with_its_name() {
    let r = request(None, &[("x-bin", &[0xff, 0xfe])]);
    let error = Query::Header("x-bin".to_string()).apply(&r).err().unwrap();
    assert_eq!(
        error,
        QueryApplicationError::InvalidHeaderValue(
            "x-bin".to_string(),
            "failed to convert header to a str".to_string()
        )
    );
    assert_eq!(
        error.to_string(),
        "invalid value in header x-bin - failed to convert header to a str"
    );
    let assert = Assert {
        query: Query::Header("x-bin".to_string()),
        predicate: Predicate::Exist,
        not: true,
    };
    let error = assert.apply(&r).err().unwrap();
    assert!(matches!(error, AssertionError::InvalidQueryValue(_)));
    assert_eq!(
        error.to_string(),
        "invalid query value - invalid value in header x-bin - failed to convert header to a str"
    );
}

#[test]
fn cookie_value_is_trimmed() {
    let r = request(None, &[("cookie", b"a=\"quoted\"; b= spaced ")]);
    assert_eq!(
        Query::Cookie("a".to_string()).apply(&r).unwrap(),
        Json::String("quoted".to_string())
    );
    assert_eq!(
        Query::Cookie("b".to_string()).apply(&r).unwrap(),
        Json::String("spaced".to_string())
    );
}

#[test]
fn cookies_are_read_from_every_cookie_header_that_is_text() {
    let r = request(None, &[("cookie", b"a=1"), ("cookie", &[0xff]), ("cookie", b"b=2")]);
    assert_eq!(Query::Cookie("a".to_string()).apply(&r).unwrap(), Json::String("1".to_string()));
    assert_eq!(Query::Cookie("b".to_string()).apply(&r).unwrap(), Json::String("2".to_string()));
}

#[test]
fn query_param_without_query_string_is_null() {
    let r = request(None, &[]);
    assert_eq!(Query::QueryParam("foo".to_string()).apply(&r).unwrap(), Json::Null);
}

#[test]
fn query_param_may_be_nested() {
    let r = request(Some("user[name]=ann&user[age]=7&tags[0]=x&tags[1]=y"), &[]);
    assert_eq!(
        Query::QueryParam("user".to_string()).apply(&r).unwrap(),
        Json::Object(vec![
            ("age".to_string(), Json::String("7".to_string())),
            ("name".to_string(), Json::String("ann".to_string())),
        ])
    );
    assert_eq!(
        Query::QueryParam("tags".to_string()).apply(&r).unwrap(),
        Json::Array(vec![Json::String("x".to_string()), Json::String("y".to_string())])
    );
    let includes = Assert {
        query: Query::QueryParam("user".to_string()),
        predicate: Predicate::Include(Json::String("name".to_string())),
        not: false,
    };
    assert!(includes.apply(&r).unwrap());
}

#[test]
fn malformed_query_string_is_an_error() {
    let r = request(Some("a[[b]=1"), &[]);
    let error = Query::QueryParam("a".to_string()).apply(&r).err().unwrap();
    match &error {
        QueryApplicationError::InvalidQueryParams(message) => {
            assert!(message.starts_with("failed to parse query params: "));
            assert!(message.contains("opening bracket"));
        }
        other => panic!("expected invalid query params, got {:?}", other),
    }
    assert!(error.to_string().starts_with("invalid query params - failed to parse query params: "));
    let assert = Assert {
        query: Query::QueryParam("a".to_string()),
        predicate: Predicate::Exist,
        not: false,
    };
    assert!(assert.apply(&r).is_err());
}

#[test]
fn negation_inverts_the_answer_when_the_query_succeeds() {
    let r = create_test_request();
    let queries = || {
        vec![
            Query::Path,
            Query::Header("x-foo".to_string()),
            Query::Header("missing".to_string()),
            Query::Cookie("foo".to_string()),
            Query::QueryParam("baz".to_string()),
        ]
    };
    let predicates = || {
        vec![
            Predicate::Equal(Json::String("bar".to_string())),
            Predicate::Exist,
            Predicate::IsString,
            Predicate::StartWith("/".to_string()),
            Predicate::IsEmpty,
        ]
    };
    for (i, _) in queries().iter().enumerate() {
        for (j, _) in predicates().iter().enumerate() {
            let plain = Assert {
                query: queries().remove(i),
                predicate: predicates().remove(j),
                not: false,
            };
            let negated = Assert {
                query: queries().remove(i),
                predicate: predicates().remove(j),
                not: true,
            };
            assert_eq!(negated.apply(&r).unwrap(), !plain.apply(&r).unwrap());
        }
    }
}

#[test]
fn stored_header_names_are_found_in_any_case() {
    let r = request(None, &[("X-Foo", b"bar"), ("Cookie", b"a=1")]);
    assert_eq!(Query::Header("x-foo".to_string()).apply(&r).unwrap(), Json::String("bar".to_string()));
    assert_eq!(Query::Header("X-FOO".to_string()).apply(&r).unwrap(), Json::String("bar".to_string()));
    assert_eq!(Query::Cookie("a".to_string()).apply(&r).unwrap(), Json::String("1".to_string()));
}
