use semantic_scholar_mcp::cache::{
    CacheEntry, LocalCache, Query, Row, Search, DEFAULT_TTL_SECS, MAP_SIZE, MAX_TABLES, TABLE_NAME,
};
use semantic_scholar_mcp::json::Json;
use semantic_scholar_mcp::single::Single;
use semantic_scholar_mcp::time::{Span, Timestamp};

fn single(value: f32) -> Single {
    Single::from_bits(value.to_bits())
}

fn number_of(single: Single) -> f32 {
    f32::from_bits(single.to_bits())
}

fn embedding(values: &[f32]) -> Vec<Single> {
    values.iter().map(|v| single(*v)).collect()
}

fn query(text: &str, values: &[f32], results: &str) -> Query {
    Query {
        action: "paper_search".to_string(),
        text: text.to_string(),
        params: Some(Json::Object(vec![("limit".to_string(), Json::Number("10".to_string()))])),
        embedding: embedding(values),
        results: Json::String(results.to_string()),
    }
}

fn at(millis: i64) -> Timestamp {
    Timestamp::from_parts(millis.div_euclid(1000), (millis.rem_euclid(1000) * 1_000_000) as u32)
        .unwrap()
}

/// Cosine similarity over the shared prefix of two embeddings; `None` where
/// either has no magnitude there.
fn cosine(stored: &[Single], searched: &[f32]) -> Option<Single> {
    let mut dot = 0.0f32;
    let mut stored_magnitude = 0.0f32;
    let mut searched_magnitude = 0.0f32;
    for (a, b) in stored.iter().map(|s| number_of(*s)).zip(searched.iter()) {
        dot += a * b;
        stored_magnitude += a * a;
        searched_magnitude += b * b;
    }
    let stored_magnitude = stored_magnitude.sqrt();
    let searched_magnitude = searched_magnitude.sqrt();
    if stored_magnitude > 0.0 && searched_magnitude > 0.0 {
        Some(single(dot / (stored_magnitude * searched_magnitude)))
    } else {
        None
    }
}

/// A table in memory: rows in key order, one row for each key.
struct Table {
    rows: Vec<(String, CacheEntry<Query>)>,
}

impl Table {
    fn new() -> Table {
        Table { rows: Vec::new() }
    }

    fn put(&mut self, written: (String, CacheEntry<Query>)) {
        self.rows.retain(|row| row.0 != written.0);
        self.rows.push(written);
        self.rows.sort_by(|a, b| a.0.cmp(&b.0));
    }

    fn delete(&mut self, key: &str) {
        self.rows.retain(|row| row.0 != key);
    }

    fn scored(&self, searched: &[f32]) -> Vec<Row> {
        self.rows
            .iter()
            .map(|(key, entry)| Row {
                key: key.clone(),
                entry: entry.clone(),
                similarity: cosine(&entry.value.embedding, searched),
            })
            .collect()
    }

    fn search(&mut self, cache: &LocalCache, searched: &[f32], now: Timestamp) -> Search {
        let found = cache.search_at(self.scored(searched), now);
        for key in &found.expired {
            self.delete(key);
        }
        found
    }
}

fn texts(found: &Search) -> Vec<String> {
    found.results.iter().map(|(query, _)| query.text.clone()).collect()
}

#[test]
fn the_store_is_laid_out_as_one_table_of_forty_in_ten_mebibytes() {
    assert_eq!(MAP_SIZE, 10 * 1024 * 1024);
    assert_eq!(MAX_TABLES, 40);
    assert_eq!(TABLE_NAME, "cache");
}

#[test]
fn the_default_ttl_is_24_hours() {
    assert_eq!(DEFAULT_TTL_SECS, 60 * 60 * 24);
    assert_eq!(LocalCache::new(None).ttl(), Span::from_secs(86_400));
}

#[test]
fn a_given_ttl_is_kept() {
    assert_eq!(LocalCache::new(Some(Span::from_millis(100))).ttl(), Span::from_millis(100));
    assert_eq!(LocalCache::new(Some(Span::zero())).ttl(), Span::zero());
}

#[test]
fn store_at_keys_the_entry_by_the_text() {
    let cache = LocalCache::new(None);
    let (key, entry) = cache.store_at(query("attention is all you need", &[1.0, 2.0], "r"), at(5_000));
    assert_eq!(key, "attention is all you need");
    assert_eq!(entry.value, query("attention is all you need", &[1.0, 2.0], "r"));
    assert_eq!(entry.created_at, at(5_000));
}

#[test]
fn store_stamps_the_entry_with_the_clock() {
    let cache = LocalCache::new(None);
    let before = Timestamp::now();
    let (key, entry) = cache.store(query("x", &[1.0], "r"));
    let after = Timestamp::now();
    assert_eq!(key, "x");
    assert_eq!(entry.value, query("x", &[1.0], "r"));
    assert!(!entry.created_at.older_than(&before, &Span::zero()));
    assert!(!after.older_than(&entry.created_at, &Span::zero()));
}

#[test]
fn is_expired_is_strict_in_the_ttl() {
    let cache = LocalCache::new(Some(Span::from_millis(100)));
    assert!(!cache.is_expired(&at(1_000), &at(1_000)));
    assert!(!cache.is_expired(&at(1_000), &at(1_100)));
    assert!(cache.is_expired(&at(1_000), &at(1_101)));
    assert!(!cache.is_expired(&at(1_000), &at(900)));
}

#[test]
fn a_stored_entry_comes_first_with_similarity_one() {
    let cache = LocalCache::new(None);
    let mut table = Table::new();
    let searched = [0.3f32, -0.4, 0.5, 0.1];
    table.put(cache.store_at(query("other", &[0.9, 0.1, -0.3, 0.2], "o"), at(1_000)));
    table.put(cache.store_at(query("opposite", &[-0.3, 0.4, -0.5, -0.1], "n"), at(1_000)));
    table.put(cache.store_at(query("x", &searched, "hit"), at(2_000)));
    let found = table.search(&cache, &searched, at(2_000));
    assert_eq!(texts(&found), vec!["x", "other", "opposite"]);
    assert_eq!(found.results[0].0, query("x", &searched, "hit"));
    assert!((number_of(found.results[0].1) - 1.0).abs() < 1e-6);
    assert!((number_of(found.results[2].1) + 1.0).abs() < 1e-6);
    assert!(found.expired.is_empty());
}

#[test]
fn a_later_store_of_the_same_text_replaces_the_earlier() {
    let cache = LocalCache::new(None);
    let mut table = Table::new();
    let first = cache.store_at(query("x", &[1.0, 0.0], "old"), at(1_000));
    let second = cache.store_at(query("x", &[0.0, 1.0], "new"), at(2_000));
    assert_eq!(first.0, second.0);
    table.put(first);
    table.put(second);
    let found = table.search(&cache, &[0.0, 1.0], at(3_000));
    assert_eq!(found.results.len(), 1);
    assert_eq!(found.results[0].0.results, Json::String("new".to_string()));
    assert_eq!(found.results[0].0.embedding, embedding(&[0.0, 1.0]));
}

#[test]
fn an_entry_older_than_the_ttl_is_left_out_and_purged() {
    let cache = LocalCache::new(Some(Span::from_millis(100)));
    let mut table = Table::new();
    let searched = [0.5f32, 0.5];
    table.put(cache.store_at(query("x", &searched, "r"), at(10_000)));

    let found = table.search(&cache, &searched, at(10_150));
    assert!(found.results.is_empty());
    assert_eq!(found.expired, vec!["x".to_string()]);
    assert!(table.rows.is_empty());

    let again = table.search(&cache, &searched, at(10_160));
    assert!(again.results.is_empty());
    assert!(again.expired.is_empty());

    table.put(cache.store_at(query("x", &searched, "r2"), at(10_200)));
    let found = table.search(&cache, &searched, at(10_250));
    assert_eq!(found.results.len(), 1);
    assert_eq!(found.results[0].0.results, Json::String("r2".to_string()));
    assert!(found.expired.is_empty());
}

#[test]
fn an_entry_at_exactly_the_ttl_is_still_live() {
    let cache = LocalCache::new(Some(Span::from_millis(100)));
    let rows = vec![Row {
        key: "x".to_string(),
        entry: CacheEntry { value: query("x", &[1.0], "r"), created_at: at(0) },
        similarity: Some(single(1.0)),
    }];
    let found = cache.search_at(rows, at(100));
    assert_eq!(found.results.len(), 1);
    assert!(found.expired.is_empty());
}

#[test]
fn expired_keys_come_in_the_order_of_the_rows() {
    let cache = LocalCache::new(Some(Span::from_secs(10)));
    let row = |key: &str, created: i64, similarity: Option<f32>| Row {
        key: key.to_string(),
        entry: CacheEntry { value: query(key, &[1.0], "r"), created_at: at(created) },
        similarity: similarity.map(single),
    };
    let rows = vec![
        row("a", 0, Some(0.99)),
        row("b", 95_000, Some(0.2)),
        row("c", 1_000, None),
        row("d", 89_999, Some(1.0)),
        row("e", 90_000, Some(0.7)),
        row("f", 99_000, None),
    ];
    let found = cache.search_at(rows, at(100_000));
    assert_eq!(found.expired, vec!["a".to_string(), "c".to_string(), "d".to_string()]);
    assert_eq!(texts(&found), vec!["e", "b"]);
    assert_eq!(found.results[0].1, single(0.7));
    assert_eq!(found.results[1].1, single(0.2));
}

#[test]
fn an_entry_without_magnitude_is_left_out_and_kept() {
    let cache = LocalCache::new(None);
    let mut table = Table::new();
    table.put(cache.store_at(query("zero", &[0.0, 0.0], "z"), at(1_000)));
    table.put(cache.store_at(query("empty", &[], "e"), at(1_000)));
    table.put(cache.store_at(query("some", &[0.0, 2.0], "s"), at(1_000)));
    let found = table.search(&cache, &[0.0, 1.0], at(2_000));
    assert_eq!(texts(&found), vec!["some"]);
    assert!(found.expired.is_empty());
    assert_eq!(table.rows.len(), 3);
}

#[test]
fn a_search_without_magnitude_finds_nothing() {
    let cache = LocalCache::new(None);
    let mut table = Table::new();
    table.put(cache.store_at(query("some", &[0.0, 2.0], "s"), at(1_000)));
    let found = table.search(&cache, &[0.0, 0.0], at(2_000));
    assert!(found.results.is_empty());
    assert!(found.expired.is_empty());
}

#[test]
fn embeddings_of_unequal_length_are_compared_over_the_shared_prefix() {
    let cache = LocalCache::new(None);
    let mut table = Table::new();
    table.put(cache.store_at(query("long", &[1.0, 0.0, 5.0, 5.0], "l"), at(1_000)));
    table.put(cache.store_at(query("short", &[0.0], "s"), at(1_000)));
    let found = table.search(&cache, &[2.0, 0.0], at(2_000));
    assert_eq!(texts(&found), vec!["long"]);
    assert!((number_of(found.results[0].1) - 1.0).abs() < 1e-6);
}

#[test]
fn repeated_searches_return_the_same_ranking() {
    let cache = LocalCache::new(Some(Span::from_secs(60)));
    let mut table = Table::new();
    let searched = [0.2f32, 0.7, -0.1];
    table.put(cache.store_at(query("a", &[0.2, 0.6, 0.0], "a"), at(0)));
    table.put(cache.store_at(query("b", &[-0.2, 0.1, 0.9], "b"), at(1_000)));
    table.put(cache.store_at(query("c", &[0.2, 0.7, -0.1], "c"), at(2_000)));
    table.put(cache.store_at(query("d", &[0.7, 0.2, 0.1], "d"), at(3_000)));
    let first = table.search(&cache, &searched, at(10_000));
    let second = table.search(&cache, &searched, at(20_000));
    let third = table.search(&cache, &searched, at(59_999));
    assert_eq!(first, second);
    assert_eq!(second, third);
    assert_eq!(texts(&first), vec!["c", "a", "d", "b"]);
}

#[test]
fn a_search_of_no_rows_finds_nothing() {
    let cache = LocalCache::new(None);
    let found = cache.search_at(Vec::new(), at(0));
    assert!(found.results.is_empty());
    assert!(found.expired.is_empty());
}

#[test]
fn search_similarity_reads_the_clock() {
    let cache = LocalCache::new(Some(Span::from_secs(3_600)));
    let fresh = cache.store(query("fresh", &[1.0], "f"));
    let stale = cache.store_at(query("stale", &[1.0], "s"), at(0));
    let rows = vec![
        Row { key: fresh.0, entry: fresh.1, similarity: Some(single(0.5)) },
        Row { key: stale.0, entry: stale.1, similarity: Some(single(0.9)) },
    ];
    let found = cache.search_similarity(rows);
    assert_eq!(texts(&found), vec!["fresh"]);
    assert_eq!(found.expired, vec!["stale".to_string()]);
}

#[test]
fn a_similarity_that_is_not_a_number_does_not_stop_the_search() {
    let cache = LocalCache::new(None);
    let row = |key: &str, similarity: f32| Row {
        key: key.to_string(),
        entry: CacheEntry { value: query(key, &[1.0], "r"), created_at: at(0) },
        similarity: Some(single(similarity)),
    };
    let rows = vec![row("a", 0.4), row("b", f32::NAN), row("c", 0.8)];
    let found = cache.search_at(rows, at(1));
    let mut got = texts(&found);
    got.sort();
    assert_eq!(got, vec!["a", "b", "c"]);
}
