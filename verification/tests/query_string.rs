use semantic_scholar_mcp::json::Json;
use semantic_scholar_mcp::url::{build_query_string, request_url, DEFAULT_BASE_URL};

fn text(value: &str) -> Json {
    Json::String(value.to_string())
}

fn number(literal: &str) -> Json {
    Json::Number(literal.to_string())
}

fn object(members: Vec<(&str, Json)>) -> Json {
    Json::Object(members.into_iter().map(|(name, value)| (name.to_string(), value)).collect())
}

#[test]
fn query_string_encodes_string_values() {
    let params = object(vec![("query", text("graph neural networks & more")), ("limit", number("10"))]);
    assert_eq!(
        build_query_string(&params),
        "query=graph%20neural%20networks%20%26%20more&limit=10"
    );
}

#[test]
fn query_string_leaves_unreserved_bytes_alone() {
    let params = object(vec![("q", text("AZaz09-._~"))]);
    assert_eq!(build_query_string(&params), "q=AZaz09-._~");
}

#[test]
fn query_string_encodes_with_upper_case_digits() {
    let params = object(vec![("q", text("a/b?c=d+e,f:g@h"))]);
    assert_eq!(build_query_string(&params), "q=a%2Fb%3Fc%3Dd%2Be%2Cf%3Ag%40h");
}

#[test]
fn query_string_encodes_each_byte_of_a_character() {
    let params = object(vec![("q", text("caf\u{e9} \u{4e2d}\u{1f600}"))]);
    assert_eq!(build_query_string(&params), "q=caf%C3%A9%20%E4%B8%AD%F0%9F%98%80");
}

#[test]
fn query_string_agrees_with_the_encoder() {
    let value = "50% of \"x\" <y> {z} |\\^`\u{7f}\u{0}\n";
    let params = object(vec![("q", text(value))]);
    assert_eq!(build_query_string(&params), format!("q={}", urlencoding::encode(value)));
}

#[test]
fn query_string_renders_numbers_by_their_text() {
    let params = object(vec![("offset", number("0")), ("min", number("-3")), ("ratio", number("1.5e3"))]);
    assert_eq!(build_query_string(&params), "offset=0&min=-3&ratio=1.5e3");
}

#[test]
fn query_string_renders_booleans() {
    let params = object(vec![("open_access_pdf", Json::Bool(true)), ("draft", Json::Bool(false))]);
    assert_eq!(build_query_string(&params), "open_access_pdf=true&draft=false");
}

#[test]
fn query_string_joins_an_array_and_encodes_it_as_one() {
    let params = object(vec![(
        "fields",
        Json::Array(vec![text("title"), text("abstract"), text("year")]),
    )]);
    assert_eq!(build_query_string(&params), "fields=title%2Cabstract%2Cyear");
}

#[test]
fn query_string_passes_over_array_elements_that_are_no_strings() {
    let params = object(vec![(
        "fields",
        Json::Array(vec![
            number("1"),
            text("a b"),
            Json::Null,
            Json::Bool(true),
            text("c"),
            Json::Array(vec![text("inner")]),
        ]),
    )]);
    assert_eq!(build_query_string(&params), "fields=a%20b%2Cc");
}

#[test]
fn query_string_of_an_empty_array_has_an_empty_value() {
    let params = object(vec![("fields", Json::Array(vec![])), ("limit", number("5"))]);
    assert_eq!(build_query_string(&params), "fields=&limit=5");
}

#[test]
fn query_string_leaves_out_null_and_nested_objects() {
    let params = object(vec![
        ("venue", Json::Null),
        ("query", text("x")),
        ("nested", object(vec![("a", text("b"))])),
        ("year", Json::Null),
        ("limit", number("10")),
    ]);
    assert_eq!(build_query_string(&params), "query=x&limit=10");
}

#[test]
fn query_string_with_only_omitted_members_is_empty() {
    let params = object(vec![("venue", Json::Null), ("nested", object(vec![]))]);
    assert_eq!(build_query_string(&params), "");
}

#[test]
fn query_string_of_an_empty_object_is_empty() {
    assert_eq!(build_query_string(&object(vec![])), "");
}

#[test]
fn query_string_of_a_document_that_is_no_object_is_empty() {
    assert_eq!(build_query_string(&text("query=x")), "");
    assert_eq!(build_query_string(&Json::Null), "");
    assert_eq!(build_query_string(&Json::Array(vec![text("a")])), "");
    assert_eq!(build_query_string(&number("1")), "");
    assert_eq!(build_query_string(&Json::Bool(true)), "");
}

#[test]
fn query_string_takes_the_key_as_it_is() {
    let params = object(vec![("a key&more", text("v"))]);
    assert_eq!(build_query_string(&params), "a key&more=v");
}

#[test]
fn query_string_of_an_empty_string_value() {
    let params = object(vec![("q", text("")), ("r", text(""))]);
    assert_eq!(build_query_string(&params), "q=&r=");
}

#[test]
fn default_base_url_is_the_graph_api() {
    assert_eq!(DEFAULT_BASE_URL, "https://api.semanticscholar.org/graph/v1");
}

#[test]
fn request_url_without_params_has_no_question_mark() {
    assert_eq!(
        request_url(None, "/paper/search", None),
        "https://api.semanticscholar.org/graph/v1/paper/search"
    );
}

#[test]
fn request_url_with_params_appends_the_query_string() {
    let params = object(vec![("query", text("deep learning")), ("limit", number("10"))]);
    assert_eq!(
        request_url(None, "/paper/search", Some(&params)),
        "https://api.semanticscholar.org/graph/v1/paper/search?query=deep%20learning&limit=10"
    );
}

#[test]
fn request_url_with_another_base() {
    let params = object(vec![("limit", number("3"))]);
    assert_eq!(
        request_url(
            Some("https://api.semanticscholar.org/recommendations/v1"),
            "/papers/forpaper/abc",
            Some(&params)
        ),
        "https://api.semanticscholar.org/recommendations/v1/papers/forpaper/abc?limit=3"
    );
}

#[test]
fn request_url_keeps_the_question_mark_before_an_empty_query() {
    assert_eq!(
        request_url(Some("http://host"), "/author/1", Some(&object(vec![]))),
        "http://host/author/1?"
    );
    assert_eq!(request_url(Some("http://host"), "/author/1", Some(&Json::Null)), "http://host/author/1?");
}
