use crate::protocol::command::{field_views, Field};
use crate::text::text_lt;
use redb::ReadableTable;
use vstd::prelude::*;

verus! {

/// The table that holds the cached entries.
pub const CACHE_TABLE: &'static str = "cache";

/// The database of redb, carried through opaque.
#[verifier::external_type_specification]
#[verifier::external_body]
pub struct ExDatabase(redb::Database);

/// The error type of redb, carried through opaque.
#[verifier::external_type_specification]
#[verifier::external_body]
pub struct ExRedbError(redb::Error);

/// What the string table `table` of a database holds: each key and its value.
pub uninterp spec fn table_contents(db: redb::Database, table: Seq<char>) -> Map<Seq<char>, Seq<char>>;

/// `es` lists the entries of `m`: each once, in key order.
pub open spec fn lists(es: Seq<Field>, m: Map<Seq<char>, Seq<char>>) -> bool {
    &&& forall|i: int, j: int| 0 <= i < j < es.len() ==> text_lt(#[trigger] es[i].0, #[trigger] es[j].0)
    &&& forall|i: int, j: int| 0 <= i < j < es.len() ==> #[trigger] es[i].0 != #[trigger] es[j].0
    &&& forall|i: int| 0 <= i < es.len() ==> m.contains_key(#[trigger] es[i].0) && m[es[i].0] == es[i].1
    &&& forall|k: Seq<char>| m.contains_key(k) ==> exists|i: int| 0 <= i < es.len() && #[trigger] es[i].0 == k
}

/// Why the cache could not be read or written.
pub enum CacheError {
    /// The store failed: the file could not be read or written, or it is corrupt.
    Storage(redb::Error),
}

/// Relies on redb's `Database::begin_write`, `WriteTransaction::open_table`,
/// `Table::insert` and `WriteTransaction::commit`: the table is created where
/// absent and the key's value is replaced once the commit succeeds. Of a
/// failed call nothing is said: a commit can be durable and still report an error.
#[verifier::external_body]
fn write_entry(db: &mut redb::Database, table: &str, key: &str, value: &str) -> (r: Result<(), redb::Error>)
    ensures
        r is Ok ==> table_contents(*final(db), table@) == table_contents(*old(db), table@).insert(key@, value@),
{
    let txn = db.begin_write()?;
    txn.open_table(redb::TableDefinition::<&str, &str>::new(table))?.insert(key, value)?;
    txn.commit()?;
    Ok(())
}

/// Relies on redb's `Database::begin_read`, `ReadTransaction::open_table` and
/// `ReadOnlyTable::iter`: one snapshot, in key order, which for `&str` keys is
/// the order of `str`; `None` where the table was never created.
#[verifier::external_body]
fn read_entries(db: &redb::Database, table: &str) -> (r: Result<Option<Vec<(String, String)>>, redb::Error>)
    ensures
        r matches Ok(Some(v)) ==> lists(field_views(v@), table_contents(*db, table@)),
        r matches Ok(o) ==> (o is None ==> table_contents(*db, table@) == Map::<
            Seq<char>,
            Seq<char>,
        >::empty()),
{
    let read = db.begin_read()?;
    let t = match read.open_table(redb::TableDefinition::<&str, &str>::new(table)) {
        Err(redb::TableError::TableDoesNotExist(_)) => return Ok(None),
        other => other?,
    };
    let v = t.iter()?.map(|e| e.map(|(k, v)| (k.value().to_string(), v.value().to_string())));
    Ok(Some(v.collect::<Result<Vec<_>, _>>()?))
}

/// Records `value` under `key` in one transaction: the key's earlier value,
/// if any, is replaced. A failure of the store is passed on as an error.
pub fn set_cache(db: &mut redb::Database, key: &str, value: &str) -> (r: Result<(), CacheError>)
    ensures
        r is Ok ==> table_contents(*final(db), CACHE_TABLE@) == table_contents(*old(db), CACHE_TABLE@).insert(key@, value@),
{
    match write_entry(db, CACHE_TABLE, key, value) {
        Ok(()) => Ok(()),
        Err(e) => Err(CacheError::Storage(e)),
    }
}

/// What a read of the cache table comes to: the entries read, none where
/// the table was never created, and the store's failure as an error.
pub fn cache_listing(read: Result<Option<Vec<(String, String)>>, redb::Error>) -> (r: Result<
    Vec<(String, String)>,
    CacheError,
>)
    ensures
        match read {
            Ok(Some(v)) => r matches Ok(w) && w@ == v@,
            Ok(None) => r matches Ok(w) && w@.len() == 0,
            Err(e) => r matches Err(CacheError::Storage(x)) && x == e,
        },
{
    match read {
        Ok(Some(v)) => Ok(v),
        Ok(None) => Ok(Vec::new()),
        Err(e) => Err(CacheError::Storage(e)),
    }
}

/// The cached entries, each key once, in key order; empty where nothing was
/// ever written. A failed read is an error, never an empty listing.
pub fn list_cache(db: &redb::Database) -> (r: Result<Vec<(String, String)>, CacheError>)
    ensures
        r matches Ok(v) ==> lists(field_views(v@), table_contents(*db, CACHE_TABLE@)),
{
    let read = read_entries(db, CACHE_TABLE);
    let ghost was_none = read matches Ok(None);
    let r = cache_listing(read);
    assert(was_none && r is Ok ==> field_views(r->Ok_0@) =~= Seq::<Field>::empty());
    r
}

/// A later write to a key replaces the earlier one: a listing after both
/// shows the key once, with the later value.
pub proof fn lemma_last_write_wins(
    m: Map<Seq<char>, Seq<char>>,
    k: Seq<char>,
    v1: Seq<char>,
    v2: Seq<char>,
    es: Seq<Field>,
)
    requires
        lists(es, m.insert(k, v1).insert(k, v2)),
    ensures
        exists|i: int| 0 <= i < es.len() && es[i] == (k, v2),
        forall|i: int, j: int| 0 <= i < es.len() && 0 <= j < es.len() && es[i].0 == k && es[j].0 == k ==> i == j,
{
    let m2 = m.insert(k, v1).insert(k, v2);
    assert(m2.contains_key(k));
    let i = choose|i: int| 0 <= i < es.len() && #[trigger] es[i].0 == k;
    assert(es[i] == (k, v2));
    assert forall|a: int, b: int| 0 <= a < es.len() && 0 <= b < es.len() && es[a].0 == k && es[b].0 == k implies a == b by {
        if a < b {
            assert(es[a].0 != es[b].0);
        } else if b < a {
            assert(es[b].0 != es[a].0);
        }
    }
}

/// Two listings of one map hold the same entries.
pub proof fn lemma_listings_agree(m: Map<Seq<char>, Seq<char>>, es1: Seq<Field>, es2: Seq<Field>)
    requires
        lists(es1, m),
        lists(es2, m),
    ensures
        es1.to_set() == es2.to_set(),
{
    assert forall|p: Field| es1.contains(p) implies es2.contains(p) by {
        let i = choose|i: int| 0 <= i < es1.len() && es1[i] == p;
        assert(m.contains_key(es1[i].0));
        let j = choose|j: int| 0 <= j < es2.len() && #[trigger] es2[j].0 == p.0;
        assert(es2[j] == p);
    }
    assert forall|p: Field| es2.contains(p) implies es1.contains(p) by {
        let i = choose|i: int| 0 <= i < es2.len() && es2[i] == p;
        assert(m.contains_key(es2[i].0));
        let j = choose|j: int| 0 <= j < es1.len() && #[trigger] es1[j].0 == p.0;
        assert(es1[j] == p);
    }
    assert(es1.to_set() =~= es2.to_set());
}

/// Writing the same value twice leaves the cache as one write does: a
/// listing after both holds the same entries as one after the first.
pub proof fn lemma_repeated_write(
    m: Map<Seq<char>, Seq<char>>,
    k: Seq<char>,
    v: Seq<char>,
    once: Seq<Field>,
    twice: Seq<Field>,
)
    requires
        lists(once, m.insert(k, v)),
        lists(twice, m.insert(k, v).insert(k, v)),
    ensures
        once.to_set() == twice.to_set(),
{
    assert(m.insert(k, v).insert(k, v) =~= m.insert(k, v));
    lemma_listings_agree(m.insert(k, v), once, twice);
}

} // verus!
