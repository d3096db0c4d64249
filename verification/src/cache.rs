//! The rules of the similarity cache: what is written for a query, which
//! entries have outlived their time, and how the others are ranked.
//!
//! The table itself lies on disk and belongs to the caller. A write is
//! prepared here and carried out there; a search is handed the rows that
//! were read, and hands back the ranked results and the keys to delete.

use crate::error::Error;
use crate::json::Json;
use crate::rank::{all_numbers, descending, rank, ranked, settled};
use crate::single::Single;
use crate::time::{Span, Timestamp};
use vstd::prelude::*;

verus! {

/// How long an entry lives where no other time is given: 24 hours.
pub const DEFAULT_TTL_SECS: u64 = 86_400;

/// The size of the store's memory map, in bytes: 10 MiB.
pub const MAP_SIZE: usize = 10_485_760;

/// How many named tables the store is opened for.
pub const MAX_TABLES: u32 = 40;

/// The name of the one table in use.
pub const TABLE_NAME: &'static str = "cache";

/// A cached unit of work.
#[derive(Clone, Debug, PartialEq, Eq)]
pub struct Query {
    /// Which operation produced the entry.
    pub action: String,
    /// The key of the entry, and the text that the embedding stands for.
    pub text: String,
    /// The options that tell apart queries of one text.
    pub params: Option<Json>,
    /// The embedding of `text`.
    pub embedding: Vec<Single>,
    /// The payload to hand back on a hit.
    pub results: Json,
}

/// A cached value and the time at which it was written.
#[derive(Clone, Debug, PartialEq, Eq)]
pub struct CacheEntry<T> {
    pub value: T,
    pub created_at: Timestamp,
}

/// A row of the table as a search meets it: the key, the entry, and the
/// cosine similarity of the entry's embedding to the one searched for. The
/// similarity is `None` where either embedding has no magnitude.
#[derive(Clone, Debug, PartialEq, Eq)]
pub struct Row {
    pub key: String,
    pub entry: CacheEntry<Query>,
    pub similarity: Option<Single>,
}

/// What a search comes to: the live entries with their similarities, the
/// most similar first, and the keys of the expired rows, which are to be
/// deleted.
#[derive(Debug, PartialEq, Eq)]
pub struct Search {
    pub results: Vec<(Query, Single)>,
    pub expired: Vec<String>,
}

/// A cache of query results, as an operation sees it. Both calls may block
/// on the store; a failure is an `Error::Storage`.
pub trait Cache: Send + Sync {
    /// Persists the query under its text. An entry that is held under the
    /// same text is replaced.
    fn store(&self, query: Query) -> Result<(), Error>;

    /// Returns the live entries, each with the cosine similarity of its
    /// embedding to `embedding`, the most similar first. Entries that are
    /// found expired are deleted before the call returns.
    fn search_similarity(&self, embedding: &Vec<Single>) -> Result<Vec<(Query, Single)>, Error>;
}

/// Whether an entry written at `created_at` has outlived `ttl` at `now`: its
/// age is strictly greater.
pub open spec fn expired(created_at: Timestamp, now: Timestamp, ttl: Span) -> bool {
    now.as_nanos() - created_at.as_nanos() > ttl.as_nanos()
}

/// The keys of the expired rows, in the order of the rows.
pub open spec fn expired_keys(rows: Seq<Row>, now: Timestamp, ttl: Span) -> Seq<String>
    decreases rows.len(),
{
    if rows.len() == 0 {
        Seq::empty()
    } else {
        let head = expired_keys(rows.drop_last(), now, ttl);
        if expired(rows.last().entry.created_at, now, ttl) {
            head.push(rows.last().key)
        } else {
            head
        }
    }
}

/// The rows that are not expired, in order: what is left of the table once
/// the expired keys are deleted.
pub open spec fn live_rows(rows: Seq<Row>, now: Timestamp, ttl: Span) -> Seq<Row>
    decreases rows.len(),
{
    if rows.len() == 0 {
        Seq::empty()
    } else {
        let head = live_rows(rows.drop_last(), now, ttl);
        if expired(rows.last().entry.created_at, now, ttl) {
            head
        } else {
            head.push(rows.last())
        }
    }
}

/// The queries of the rows that are not expired and have a similarity, each
/// with its similarity, in the order of the rows.
pub open spec fn matches(rows: Seq<Row>, now: Timestamp, ttl: Span) -> Seq<(Query, Single)>
    decreases rows.len(),
{
    if rows.len() == 0 {
        Seq::empty()
    } else {
        let head = matches(rows.drop_last(), now, ttl);
        let row = rows.last();
        if expired(row.entry.created_at, now, ttl) {
            head
        } else {
            match row.similarity {
                Some(similarity) => head.push((row.entry.value, similarity)),
                None => head,
            }
        }
    }
}

/// An entry is not expired at the time at which it was written.
pub proof fn lemma_fresh_entry_is_live(now: Timestamp, ttl: Span)
    ensures
        !expired(now, now, ttl),
{
}

/// Two searches of the same rows, at two times between which no row passes
/// from live to expired, find the same matches, hence the same ranking, and
/// the same keys to delete.
pub proof fn lemma_search_repeats(rows: Seq<Row>, first: Timestamp, second: Timestamp, ttl: Span)
    requires
        forall|i: int|
            0 <= i < rows.len() ==> expired((#[trigger] rows[i]).entry.created_at, first, ttl)
                == expired(rows[i].entry.created_at, second, ttl),
    ensures
        matches(rows, first, ttl) == matches(rows, second, ttl),
        ranked(matches(rows, first, ttl)) == ranked(matches(rows, second, ttl)),
        expired_keys(rows, first, ttl) == expired_keys(rows, second, ttl),
    decreases rows.len(),
{
    if rows.len() > 0 {
        let head = rows.drop_last();
        assert forall|i: int| 0 <= i < head.len() implies expired(
            (#[trigger] head[i]).entry.created_at,
            first,
            ttl,
        ) == expired(head[i].entry.created_at, second, ttl) by {
            assert(head[i] == rows[i]);
        }
        lemma_search_repeats(head, first, second, ttl);
        assert(rows.last() == rows[rows.len() - 1]);
    }
}

/// Once the keys that a search listed are deleted, a later search, before
/// which no further row expires, finds the same matches as the first, hence
/// the same ranking, and no key to delete.
pub proof fn lemma_search_after_purge(
    rows: Seq<Row>,
    first: Timestamp,
    second: Timestamp,
    ttl: Span,
)
    requires
        forall|i: int|
            0 <= i < rows.len() && !expired((#[trigger] rows[i]).entry.created_at, first, ttl)
                ==> !expired(rows[i].entry.created_at, second, ttl),
    ensures
        matches(live_rows(rows, first, ttl), second, ttl) == matches(rows, first, ttl),
        expired_keys(live_rows(rows, first, ttl), second, ttl) == Seq::<String>::empty(),
    decreases rows.len(),
{
    if rows.len() > 0 {
        let head = rows.drop_last();
        assert forall|i: int|
            0 <= i < head.len() && !expired(
                (#[trigger] head[i]).entry.created_at,
                first,
                ttl,
            ) implies !expired(head[i].entry.created_at, second, ttl) by {
            assert(head[i] == rows[i]);
        }
        lemma_search_after_purge(head, first, second, ttl);
        assert(rows.last() == rows[rows.len() - 1]);
        if !expired(rows.last().entry.created_at, first, ttl) {
            assert(live_rows(rows, first, ttl).drop_last() == live_rows(head, first, ttl));
        }
    }
}

/// Whether `key` is among `keys`.
pub open spec fn listed(keys: Seq<String>, key: Seq<char>) -> bool {
    exists|i: int| 0 <= i < keys.len() && (#[trigger] keys[i])@ == key
}

/// The rows whose keys are not among `keys`, in order: what a table holds
/// once those keys are deleted from it.
pub open spec fn without_keys(rows: Seq<Row>, keys: Seq<String>) -> Seq<Row>
    decreases rows.len(),
{
    if rows.len() == 0 {
        Seq::empty()
    } else {
        let head = without_keys(rows.drop_last(), keys);
        if listed(keys, rows.last().key@) {
            head
        } else {
            head.push(rows.last())
        }
    }
}

/// Whether no key occurs in two rows, as in a table.
pub open spec fn distinct_keys(rows: Seq<Row>) -> bool {
    forall|i: int, j: int|
        0 <= i < j < rows.len() ==> (#[trigger] rows[i]).key@ != (#[trigger] rows[j]).key@
}

/// A key is listed as expired just where a row of that key is expired.
proof fn lemma_expired_keys_listed(rows: Seq<Row>, now: Timestamp, ttl: Span, key: Seq<char>)
    ensures
        listed(expired_keys(rows, now, ttl), key) <==> exists|i: int|
            0 <= i < rows.len() && (#[trigger] rows[i]).key@ == key && expired(
                rows[i].entry.created_at,
                now,
                ttl,
            ),
    decreases rows.len(),
{
    let keys = expired_keys(rows, now, ttl);
    if rows.len() > 0 {
        let head = rows.drop_last();
        let head_keys = expired_keys(head, now, ttl);
        let last = rows.last();
        lemma_expired_keys_listed(head, now, ttl, key);
        if listed(keys, key) {
            let i = choose|i: int| 0 <= i < keys.len() && (#[trigger] keys[i])@ == key;
            if i < head_keys.len() {
                assert(head_keys[i] == keys[i]);
                assert(listed(head_keys, key));
                let k = choose|k: int|
                    0 <= k < head.len() && (#[trigger] head[k]).key@ == key && expired(
                        head[k].entry.created_at,
                        now,
                        ttl,
                    );
                assert(rows[k] == head[k]);
            } else {
                assert(rows[rows.len() - 1] == last);
            }
        }
        if exists|i: int|
            0 <= i < rows.len() && (#[trigger] rows[i]).key@ == key && expired(
                rows[i].entry.created_at,
                now,
                ttl,
            ) {
            let i = choose|i: int|
                0 <= i < rows.len() && (#[trigger] rows[i]).key@ == key && expired(
                    rows[i].entry.created_at,
                    now,
                    ttl,
                );
            if i < head.len() {
                assert(head[i] == rows[i]);
                assert(listed(head_keys, key));
                let k = choose|k: int| 0 <= k < head_keys.len() && (#[trigger] head_keys[k])@ == key;
                assert(keys[k] == head_keys[k]);
            } else {
                assert(keys[keys.len() - 1] == last.key);
            }
        }
    }
}

/// Deleting the keys that a search lists from a table, in which no key
/// occurs twice, leaves the rows that are not expired, and no others.
pub proof fn lemma_purge_leaves_the_live(rows: Seq<Row>, now: Timestamp, ttl: Span)
    requires
        distinct_keys(rows),
    ensures
        without_keys(rows, expired_keys(rows, now, ttl)) == live_rows(rows, now, ttl),
{
    lemma_purge_of(rows, rows, now, ttl);
    assert(rows.take(rows.len() as int) == rows);
}

/// The same, for the first rows of a table.
proof fn lemma_purge_of(table: Seq<Row>, rows: Seq<Row>, now: Timestamp, ttl: Span)
    requires
        distinct_keys(table),
        rows.len() <= table.len(),
        rows == table.take(rows.len() as int),
    ensures
        without_keys(rows, expired_keys(table, now, ttl)) == live_rows(rows, now, ttl),
    decreases rows.len(),
{
    if rows.len() > 0 {
        let head = rows.drop_last();
        let last = rows.last();
        let at = rows.len() - 1;
        assert(head == table.take(head.len() as int));
        lemma_purge_of(table, head, now, ttl);
        lemma_expired_keys_listed(table, now, ttl, last.key@);
        assert(table[at] == last);
        if !expired(last.entry.created_at, now, ttl) {
            if listed(expired_keys(table, now, ttl), last.key@) {
                let i = choose|i: int|
                    0 <= i < table.len() && (#[trigger] table[i]).key@ == last.key@ && expired(
                        table[i].entry.created_at,
                        now,
                        ttl,
                    );
                if i < at {
                    assert(table[i].key@ != table[at].key@);
                } else if at < i {
                    assert(table[at].key@ != table[i].key@);
                }
            }
        }
    }
}

/// Whether every row lies under the text of its query, as the rows do that
/// `store_at` prepares.
pub open spec fn keyed_by_text(rows: Seq<Row>) -> bool {
    forall|i: int| 0 <= i < rows.len() ==> (#[trigger] rows[i]).key@ == rows[i].entry.value.text@
}

/// Whether no text occurs in two entries.
pub open spec fn distinct_texts(list: Seq<(Query, Single)>) -> bool {
    forall|i: int, j: int|
        0 <= i < j < list.len() ==> (#[trigger] list[i]).0.text@ != (#[trigger] list[j]).0.text@
}

/// Every match is the query of a row.
proof fn lemma_match_has_row(rows: Seq<Row>, now: Timestamp, ttl: Span, at: int)
    requires
        0 <= at < matches(rows, now, ttl).len(),
    ensures
        exists|k: int|
            0 <= k < rows.len() && (#[trigger] rows[k]).entry.value == matches(rows, now, ttl)[at].0,
    decreases rows.len(),
{
    let head = rows.drop_last();
    if at < matches(head, now, ttl).len() {
        lemma_match_has_row(head, now, ttl, at);
        let k = choose|k: int|
            0 <= k < head.len() && (#[trigger] head[k]).entry.value == matches(head, now, ttl)[at].0;
        assert(rows[k] == head[k]);
    } else {
        assert(rows[rows.len() - 1].entry.value == matches(rows, now, ttl)[at].0);
    }
}

/// Of a table in which every row lies under the text of its query, and no
/// key occurs twice, no two matches are of one text.
proof fn lemma_one_match_per_text(rows: Seq<Row>, now: Timestamp, ttl: Span)
    requires
        distinct_keys(rows),
        keyed_by_text(rows),
    ensures
        distinct_texts(matches(rows, now, ttl)),
    decreases rows.len(),
{
    if rows.len() > 0 {
        let head = rows.drop_last();
        let found = matches(rows, now, ttl);
        assert forall|i: int, j: int| 0 <= i < j < head.len() implies (#[trigger] head[i]).key@ != (
        #[trigger] head[j]).key@ by {
            assert(head[i] == rows[i] && head[j] == rows[j]);
        }
        assert forall|i: int| 0 <= i < head.len() implies (#[trigger] head[i]).key@
            == head[i].entry.value.text@ by {
            assert(head[i] == rows[i]);
        }
        lemma_one_match_per_text(head, now, ttl);
        assert forall|i: int, j: int| 0 <= i < j < found.len() implies (#[trigger] found[i]).0.text@
            != (#[trigger] found[j]).0.text@ by {
            let before = matches(head, now, ttl);
            if j < before.len() {
                assert(found[i] == before[i] && found[j] == before[j]);
            } else {
                assert(found[i] == before[i]);
                lemma_match_has_row(head, now, ttl, i);
                let k = choose|k: int|
                    0 <= k < head.len() && (#[trigger] head[k]).entry.value == before[i].0;
                assert(rows[k] == head[k]);
                assert(rows[k].key@ != rows[rows.len() - 1].key@);
            }
        }
    }
}

/// Ranking keeps the texts apart that were apart.
proof fn lemma_ranked_distinct_texts(items: Seq<(Query, Single)>)
    requires
        distinct_texts(items),
    ensures
        distinct_texts(ranked(items)),
    decreases items.len(),
{
    if items.len() > 0 {
        let head = items.drop_last();
        let item = items.last();
        assert forall|i: int, j: int| 0 <= i < j < head.len() implies (#[trigger] head[i]).0.text@
            != (#[trigger] head[j]).0.text@ by {
            assert(head[i] == items[i] && head[j] == items[j]);
        }
        lemma_ranked_distinct_texts(head);
        let list = ranked(head);
        crate::rank::lemma_ranked_keeps_items(head);
        crate::rank::lemma_placed_is_insert(list, item);
        let at = crate::rank::place_of(list, item);
        let whole = list.insert(at, item);
        assert forall|k: int| 0 <= k < list.len() implies (#[trigger] list[k]).0.text@
            != item.0.text@ by {
            list.to_multiset_ensures();
            head.to_multiset_ensures();
            assert(list.contains(list[k]));
            assert(list.to_multiset().count(list[k]) > 0);
            assert(head.to_multiset().count(list[k]) > 0);
            assert(head.contains(list[k]));
            let h = choose|h: int| 0 <= h < head.len() && head[h] == list[k];
            assert(items[h] == head[h]);
            assert(items[h].0.text@ != items[items.len() - 1].0.text@);
        }
        assert forall|i: int, j: int| 0 <= i < j < whole.len() implies (#[trigger] whole[i]).0.text@
            != (#[trigger] whole[j]).0.text@ by {
            if j < at {
                assert(whole[i] == list[i] && whole[j] == list[j]);
            } else if j == at {
                assert(whole[i] == list[i]);
            } else if i == at {
                assert(whole[j] == list[j - 1]);
            } else if i > at {
                assert(whole[i] == list[i - 1] && whole[j] == list[j - 1]);
            } else {
                assert(whole[i] == list[i] && whole[j] == list[j - 1]);
            }
        }
    }
}

/// A search of a table, in which every row lies under the text of its query
/// and no key occurs twice, returns no two entries of one text: of the
/// entries that were written under a text, only the one that the table
/// holds, which is the latest, is found.
pub proof fn lemma_one_result_per_text(rows: Seq<Row>, now: Timestamp, ttl: Span)
    requires
        distinct_keys(rows),
        keyed_by_text(rows),
    ensures
        distinct_texts(ranked(matches(rows, now, ttl))),
{
    lemma_one_match_per_text(rows, now, ttl);
    lemma_ranked_distinct_texts(matches(rows, now, ttl));
}

/// The policy of the cache: how long an entry lives.
#[derive(Debug, PartialEq, Eq)]
pub struct LocalCache {
    ttl: Span,
}

impl LocalCache {
    /// The time that an entry lives.
    pub closed spec fn time_to_live(self) -> Span {
        self.ttl
    }

    /// A cache whose entries live for `ttl`, or for 24 hours where none is
    /// given.
    pub fn new(ttl: Option<Span>) -> (cache: LocalCache)
        ensures
            ttl matches Some(span) ==> cache.time_to_live() == span,
            ttl is None ==> cache.time_to_live().as_nanos() == DEFAULT_TTL_SECS * 1_000_000_000,
    {
        match ttl {
            Some(span) => LocalCache { ttl: span },
            None => LocalCache { ttl: Span::from_secs(DEFAULT_TTL_SECS) },
        }
    }

    /// The time that an entry lives.
    pub fn ttl(&self) -> (ttl: Span)
        ensures
            ttl == self.time_to_live(),
    {
        self.ttl
    }

    /// Whether an entry written at `created_at` is expired at `now`.
    pub fn is_expired(&self, created_at: &Timestamp, now: &Timestamp) -> (gone: bool)
        ensures
            gone == expired(*created_at, *now, self.time_to_live()),
    {
        created_at.older_than(now, &self.ttl)
    }

    /// Prepares the write of `query` at the time `now`: the key under which
    /// the entry goes, which is the query's text, and the entry, which holds
    /// the query and `now` as its time of creation. Whatever the table holds
    /// under that key is to be replaced.
    pub fn store_at(&self, query: Query, now: Timestamp) -> (written: (String, CacheEntry<Query>))
        ensures
            written.0@ == query.text@,
            written.1.value == query,
            written.1.created_at == now,
    {
        let key = query.text.clone();
        (key, CacheEntry { value: query, created_at: now })
    }

    /// Prepares the write of `query` at the current time: as `store_at` does
    /// for the time that the clock shows.
    pub fn store(&self, query: Query) -> (written: (String, CacheEntry<Query>))
        ensures
            written.0@ == query.text@,
            written.1.value == query,
    {
        self.store_at(query, Timestamp::now())
    }

    /// Searches the rows as read at the time `now`. A row whose entry has
    /// outlived the cache's time is left out of the results, and its key is
    /// listed for deleting. Of the others, those with a similarity are
    /// ranked, the most similar first; those without one are left out.
    /// The ranking holds every such entry once, and no entry is directly
    /// followed by a more similar one; where every similarity is a number,
    /// it is in descending order throughout.
    pub fn search_at(&self, rows: Vec<Row>, now: Timestamp) -> (found: Search)
        ensures
            found.results@ == ranked(matches(rows@, now, self.time_to_live())),
            found.expired@ == expired_keys(rows@, now, self.time_to_live()),
            found.results@.to_multiset() == matches(rows@, now, self.time_to_live()).to_multiset(),
            settled(found.results@),
            all_numbers(matches(rows@, now, self.time_to_live())) ==> descending(found.results@),
            distinct_keys(rows@) && keyed_by_text(rows@) ==> distinct_texts(found.results@),
    {
        proof {
            if distinct_keys(rows@) && keyed_by_text(rows@) {
                lemma_one_result_per_text(rows@, now, self.time_to_live());
            }
        }
        let mut live: Vec<(Query, Single)> = Vec::new();
        let mut gone: Vec<String> = Vec::new();
        for row in iter: rows
            invariant
                iter.seq() == rows@,
                live@ == matches(rows@.take(iter.index() as int), now, self.time_to_live()),
                gone@ == expired_keys(rows@.take(iter.index() as int), now, self.time_to_live()),
        {
            proof {
                assert(rows@.take(iter.index() + 1).drop_last() == rows@.take(iter.index() as int));
            }
            if row.entry.created_at.older_than(&now, &self.ttl) {
                gone.push(row.key);
            } else {
                match row.similarity {
                    Some(similarity) => {
                        live.push((row.entry.value, similarity));
                    },
                    None => {},
                }
            }
        }
        proof {
            assert(rows@.take(rows@.len() as int) == rows@);
        }
        Search { results: rank(live), expired: gone }
    }

    /// Searches the rows as read at the current time: as `search_at` does
    /// for the time that the clock shows, which is read once.
    pub fn search_similarity(&self, rows: Vec<Row>) -> (found: Search)
        ensures
            exists|now: Timestamp|
                {
                    &&& found.results@ == ranked(
                        #[trigger] matches(rows@, now, self.time_to_live()),
                    )
                    &&& found.expired@ == expired_keys(rows@, now, self.time_to_live())
                },
            settled(found.results@),
    {
        self.search_at(rows, Timestamp::now())
    }
}

} // verus!
