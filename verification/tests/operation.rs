use semantic_scholar_mcp::cache::Query;
use semantic_scholar_mcp::json::Json;
use semantic_scholar_mcp::operation::{
    best_hit, is_fatal, is_similar_enough, matching_hit, Stage, HIT_THRESHOLD_BITS,
};
use semantic_scholar_mcp::single::Single;

fn single(value: f32) -> Single {
    Single::from_bits(value.to_bits())
}

fn params(limit: &str) -> Json {
    Json::Object(vec![
        ("query".to_string(), Json::String("transformers".to_string())),
        ("limit".to_string(), Json::Number(limit.to_string())),
        (
            "fields".to_string(),
            Json::Array(vec![Json::String("title".to_string()), Json::String("year".to_string())]),
        ),
        ("venue".to_string(), Json::Null),
        ("open_access_pdf".to_string(), Json::Bool(true)),
    ])
}

fn entry(action: &str, held: Option<Json>, similarity: f32, results: &str) -> (Query, Single) {
    (
        Query {
            action: action.to_string(),
            text: "transformers".to_string(),
            params: held,
            embedding: vec![single(1.0)],
            results: Json::String(results.to_string()),
        },
        single(similarity),
    )
}

#[test]
fn the_threshold_is_0_95() {
    assert_eq!(HIT_THRESHOLD_BITS, 0.95f32.to_bits());
}

#[test]
fn similar_enough_is_strictly_above_the_threshold() {
    assert!(!is_similar_enough(&single(0.95)));
    assert!(is_similar_enough(&Single::from_bits(0.95f32.to_bits() + 1)));
    assert!(is_similar_enough(&single(1.0)));
    assert!(!is_similar_enough(&single(0.949)));
    assert!(!is_similar_enough(&single(-1.0)));
    assert!(!is_similar_enough(&single(f32::NAN)));
}

#[test]
fn best_hit_takes_the_first_entry_where_it_is_similar_enough() {
    let results = vec![entry("author_details", None, 0.97, "a"), entry("x", None, 0.99, "b")];
    assert_eq!(best_hit(&results), Some(0));
}

#[test]
fn best_hit_looks_at_the_first_entry_only() {
    let results = vec![entry("author_details", None, 0.9, "a"), entry("x", None, 0.99, "b")];
    assert_eq!(best_hit(&results), None);
    assert_eq!(best_hit(&Vec::new()), None);
}

#[test]
fn matching_hit_asks_for_similarity_action_and_parameters() {
    let results = vec![
        entry("paper_search", Some(params("20")), 0.99, "other limit"),
        entry("author_search", Some(params("10")), 0.98, "other action"),
        entry("paper_search", None, 0.975, "no parameters"),
        entry("paper_search", Some(params("10")), 0.97, "hit"),
        entry("paper_search", Some(params("10")), 0.96, "later hit"),
    ];
    assert_eq!(matching_hit(&results, "paper_search", &params("10")), Some(3));
    assert_eq!(matching_hit(&results, "paper_search", &params("20")), Some(0));
    assert_eq!(matching_hit(&results, "author_search", &params("10")), Some(1));
    assert_eq!(matching_hit(&results, "author_search", &params("20")), None);
    assert_eq!(matching_hit(&results, "paper_details", &params("10")), None);
}

#[test]
fn matching_hit_passes_over_entries_that_are_not_similar_enough() {
    let results = vec![
        entry("paper_search", Some(params("10")), 0.95, "at the threshold"),
        entry("paper_search", Some(params("10")), 0.5, "far"),
    ];
    assert_eq!(matching_hit(&results, "paper_search", &params("10")), None);
    assert_eq!(matching_hit(&Vec::new(), "paper_search", &params("10")), None);
}

#[test]
fn documents_are_the_same_by_kind_text_and_order() {
    assert!(params("10").same_as(&params("10")));
    assert!(!params("10").same_as(&params("11")));
    assert!(Json::Null.same_as(&Json::Null));
    assert!(!Json::Null.same_as(&Json::Bool(false)));
    assert!(!Json::Bool(true).same_as(&Json::Bool(false)));
    assert!(!Json::Number("1".to_string()).same_as(&Json::String("1".to_string())));
    assert!(!Json::Number("1".to_string()).same_as(&Json::Number("1.0".to_string())));
    assert!(!Json::Array(vec![]).same_as(&Json::Object(vec![])));
    let ab = Json::Array(vec![Json::String("a".to_string()), Json::String("b".to_string())]);
    let ba = Json::Array(vec![Json::String("b".to_string()), Json::String("a".to_string())]);
    let a = Json::Array(vec![Json::String("a".to_string())]);
    assert!(ab.same_as(&ab));
    assert!(!ab.same_as(&ba));
    assert!(!ab.same_as(&a));
    assert!(!a.same_as(&ab));
}

#[test]
fn objects_are_the_same_by_names_and_values() {
    let one = Json::Object(vec![("a".to_string(), Json::Number("1".to_string()))]);
    let other_name = Json::Object(vec![("b".to_string(), Json::Number("1".to_string()))]);
    let other_value = Json::Object(vec![("a".to_string(), Json::Number("2".to_string()))]);
    let nested = Json::Object(vec![("a".to_string(), one.clone())]);
    let nested_other = Json::Object(vec![("a".to_string(), other_value.clone())]);
    assert!(one.same_as(&one.clone()));
    assert!(!one.same_as(&other_name));
    assert!(!one.same_as(&other_value));
    assert!(nested.same_as(&nested.duplicate()));
    assert!(!nested.same_as(&nested_other));
    assert!(!one.same_as(&Json::Object(vec![])));
}

#[test]
fn a_copy_is_the_same_document() {
    let document = Json::Array(vec![params("10"), Json::Null, Json::Array(vec![params("3")])]);
    let copy = document.clone();
    assert_eq!(copy, document);
    assert!(copy.same_as(&document));
    assert_eq!(document.duplicate(), document);
}

#[test]
fn only_a_failed_write_back_is_not_fatal() {
    assert!(is_fatal(Stage::Embedding));
    assert!(is_fatal(Stage::Lookup));
    assert!(is_fatal(Stage::Fetch));
    assert!(!is_fatal(Stage::Store));
}
