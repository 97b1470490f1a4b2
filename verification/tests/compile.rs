use impostor::compile;
use impostor::dispatch::DispatchTable;
use impostor::request::{Request, Response};

fn get(path: &str, query: Option<&str>, headers: &[(&str, &str)]) -> Request {
    Request {
        method: "GET".to_string(),
        path: path.to_string(),
        query: query.map(|q| q.to_string()),
        headers: headers.iter().map(|(k, v)| (k.to_string(), v.as_bytes().to_vec())).collect(),
        body: vec![],
    }
}

fn header<'a>(response: &'a Response, name: &str) -> Option<&'a str> {
    response.headers.iter().find(|(k, _)| k == name).map(|(_, v)| v.as_str())
}

fn serve(table: &DispatchTable, request: Request) -> Response {
    table.dispatch(&request)
}

#[test]
fn test_compile() {
    let contents = r#"
            GET /hello

            HTTP 200
            Content-Type: application/json

            {"hello": "world"}
        "#;

    let router = compile(contents).unwrap();

    let response = serve(&router, get("/hello", None, &[]));

    assert_eq!(response.status, 200);
    assert_eq!(header(&response, "content-type").unwrap(), "application/json");
    assert_eq!(response.body, br#"{"hello": "world"}"#);
}

#[test]
fn test_compile_two_routes() {
    let contents = r#"
            GET /hello-json

            HTTP 200
            Content-Type: application/json

            {"hello": "world"}

            GET /hello-text

            HTTP 400
            Content-Type: text/plain; charset=utf-8

            # The backticks are necessary for the parse to take this as a string
            `hello world`
        "#;

    let router = compile(contents).unwrap();

    let response = serve(&router, get("/hello-json", None, &[]));

    assert_eq!(response.status, 200);
    assert_eq!(header(&response, "content-type").unwrap(), "application/json");
    assert_eq!(response.body, br#"{"hello": "world"}"#);

    let response = serve(&router, get("/hello-text", None, &[]));

    assert_eq!(response.status, 400);
    assert_eq!(header(&response, "content-type").unwrap(), "text/plain; charset=utf-8");
    assert_eq!(response.body, b"hello world");
}

#[test]
fn test_compile_route_with_header_assert() {
    let contents = r#"
            GET /hello
            [Asserts]
            header "x-foo" == "bar"

            HTTP 200
            Content-Type: application/json

            {"hello": "world"}
        "#;

    let router = compile(contents).unwrap();

    let response = serve(&router, get("/hello", None, &[("x-foo", "bar")]));

    assert_eq!(response.status, 200);
    assert_eq!(header(&response, "content-type").unwrap(), "application/json");
    assert_eq!(response.body, br#"{"hello": "world"}"#);

    let response = serve(&router, get("/hello", None, &[("x-foo", "baz")]));
    assert_eq!(response.status, 404);

    let response = serve(&router, get("/hello", None, &[]));
    assert_eq!(response.status, 404);
}

#[test]
fn test_compile_route_with_query_param_assert() {
    let contents = r#"
            GET /hello
            [Asserts]
            queryparam "foo" == "bar"

            HTTP 200
            Content-Type: application/json

            {"hello": "world"}
        "#;

    let router = compile(contents).unwrap();

    let response = serve(&router, get("/hello", Some("foo=bar"), &[]));

    assert_eq!(response.status, 200);
    assert_eq!(header(&response, "content-type").unwrap(), "application/json");
    assert_eq!(response.body, br#"{"hello": "world"}"#);

    let response = serve(&router, get("/hello", Some("foo=baz"), &[]));
    assert_eq!(response.status, 404);

    let response = serve(&router, get("/hello", None, &[]));
    assert_eq!(response.status, 404);
}

#[test]
fn test_compile_route_with_implicit_header_assert() {
    let contents = r#"
            GET /hello
            x-foo: bar

            HTTP 200
            Content-Type: application/json

            {"hello": "world"}
        "#;

    let router = compile(contents).unwrap();

    let response = serve(&router, get("/hello", None, &[("x-foo", "bar")]));

    assert_eq!(response.status, 200);
    assert_eq!(header(&response, "content-type").unwrap(), "application/json");
    assert_eq!(response.body, br#"{"hello": "world"}"#);

    let response = serve(&router, get("/hello", None, &[]));

    assert_eq!(response.status, 404);
}

#[test]
fn test_compile_multiple_entries_for_route() {
    let contents = r#"
            GET /hello
            x-foo: bar

            HTTP 200
            Content-Type: application/json

            {"hello": "world"}

            GET /hello
            [Asserts]
            header "x-foo" == "baz"

            HTTP 201
            Content-Type: text/plain; charset=utf-8

            `hello world`

            GET /hello

            HTTP 400
            Content-Type: text/plain; charset=utf-8

            `Expected x-foo header to be bar or baz`
        "#;

    let router = compile(contents).unwrap();

    let response = serve(&router, get("/hello", None, &[("x-foo", "bar")]));
    assert_eq!(response.status, 200);
    assert_eq!(header(&response, "content-type").unwrap(), "application/json");
    assert_eq!(response.body, br#"{"hello": "world"}"#);

    let response = serve(&router, get("/hello", None, &[("x-foo", "baz")]));
    assert_eq!(response.status, 201);
    assert_eq!(header(&response, "content-type").unwrap(), "text/plain; charset=utf-8");
    assert_eq!(response.body, b"hello world");

    let response = serve(&router, get("/hello", None, &[("x-foo", "qux")]));
    assert_eq!(response.status, 400);
    assert_eq!(header(&response, "content-type").unwrap(), "text/plain; charset=utf-8");
    assert_eq!(response.body, b"Expected x-foo header to be bar or baz");

    let response = serve(&router, get("/hello", None, &[]));
    assert_eq!(response.status, 400);
    assert_eq!(header(&response, "content-type").unwrap(), "text/plain; charset=utf-8");
    assert_eq!(response.body, b"Expected x-foo header to be bar or baz");
}

#[test]
fn end_to_end_scenario() {
    let table = compile(
        "GET /hello\nHTTP 200\nContent-Type: application/json\n\n{\"hello\":\"world\"}\n",
    )
    .unwrap();
    let response = serve(&table, get("/hello", None, &[]));
    assert_eq!(
        response,
        Response {
            status: 200,
            headers: vec![("content-type".to_string(), "application/json".to_string())],
            body: b"{\"hello\":\"world\"}".to_vec(),
        }
    );
    let response = serve(&table, get("/other-path", None, &[]));
    assert_eq!(response, Response { status: 404, headers: vec![], body: vec![] });
}

#[test]
fn a_route_is_a_path_and_a_method() {
    let table = compile("GET /a\nHTTP 200\n\nPOST /a\nHTTP 201\n").unwrap();
    assert_eq!(table.routes.len(), 2);
    let mut request = get("/a", None, &[]);
    assert_eq!(serve(&table, get("/a", None, &[])).status, 200);
    request.method = "POST".to_string();
    assert_eq!(table.dispatch(&request).status, 201);
    request.method = "PUT".to_string();
    assert_eq!(table.dispatch(&request), Response { status: 404, headers: vec![], body: vec![] });
    request.method = "get".to_string();
    assert_eq!(table.dispatch(&request).status, 404);
}

#[test]
fn routes_keep_the_order_of_their_first_entries() {
    let table = compile(
        "GET /b\nHTTP 200\n\nGET /a\nHTTP 200\n\nGET /b\nHTTP 201\n\nDELETE /a\nHTTP 204\n",
    )
    .unwrap();
    let keys: Vec<(String, String, usize)> = table
        .routes
        .iter()
        .map(|r| (r.method.clone(), r.path.clone(), r.entries.len()))
        .collect();
    assert_eq!(
        keys,
        vec![
            ("GET".to_string(), "/b".to_string(), 2),
            ("GET".to_string(), "/a".to_string(), 1),
            ("DELETE".to_string(), "/a".to_string(), 1),
        ]
    );
    assert_eq!(table.routes[0].entries[0].status_code, 200);
    assert_eq!(table.routes[0].entries[1].status_code, 201);
}

#[test]
fn the_matching_entry_serves_whichever_is_declared_first() {
    let strict_first = compile(
        "GET /x\n[Asserts]\nheader \"k\" == \"v\"\nHTTP 201\n\nGET /x\nHTTP 202\n",
    )
    .unwrap();
    assert_eq!(serve(&strict_first, get("/x", None, &[])).status, 202);
    assert_eq!(serve(&strict_first, get("/x", None, &[("k", "v")])).status, 201);

    let open_first = compile(
        "GET /x\nHTTP 202\n\nGET /x\n[Asserts]\nheader \"k\" == \"v\"\nHTTP 201\n",
    )
    .unwrap();
    assert_eq!(serve(&open_first, get("/x", None, &[])).status, 202);
    // Both match: the declared order decides.
    assert_eq!(serve(&open_first, get("/x", None, &[("k", "v")])).status, 202);
}

#[test]
fn every_entry_failing_gives_not_found() {
    let table = compile(
        "GET /x\n[Asserts]\nheader \"k\" == \"1\"\nHTTP 200\n\nGET /x\n[Asserts]\nheader \"k\" == \"2\"\nHTTP 200\n",
    )
    .unwrap();
    let response = serve(&table, get("/x", None, &[("k", "3")]));
    assert_eq!(response, Response { status: 404, headers: vec![], body: vec![] });
}

#[test]
fn a_query_error_is_a_failed_match() {
    let table = compile("GET /x\n[Asserts]\nheader \"k\" not exists\nHTTP 200\n").unwrap();
    assert_eq!(serve(&table, get("/x", None, &[])).status, 200);
    let mut request = get("/x", None, &[]);
    request.headers.push(("k".to_string(), vec![0xff]));
    assert_eq!(table.dispatch(&request).status, 404);
}
