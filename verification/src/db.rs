//! The relational store: one table of completed items behind a sqlite
//! connection.
//!
//! The table holds a surrogate key, the instant's canonical RFC 3339 text
//! and the raw label; the key is never surfaced. Writing is best-effort —
//! `save` tries every record and collects the per-record failures — while
//! reading is strict: a stored timestamp that does not parse fails the
//! whole call. The sqlite calls stand behind trusted wrappers; the
//! reconstruction of records out of rows is verified, with its exact
//! contract on [`items_from_rows`].

use vstd::prelude::*;

use crate::instant::instant_of;
use crate::instant::Instant;
use crate::item::CompletedItem;
use crate::item::ParseError;

verus! {

/// Declares sqlite's `Connection` so signatures can carry one; its value
/// stays opaque, a handle the wrappers pass through.
#[verifier::external_type_specification]
#[verifier::external_body]
pub struct ExConnection(sqlite::Connection);

/// Declares sqlite's `Error`: an optional error code and an optional
/// message, as its public fields show.
#[verifier::external_type_specification]
pub struct ExError(sqlite::Error);

/// Why a read of the relational store failed: the store itself, or a
/// stored timestamp that no longer parses.
#[derive(Debug)]
pub enum DbError {
    /// The store reported a failure.
    BackendError(sqlite::Error),
    /// A stored timestamp is not a valid instant.
    TimestampError,
}

/// Relies on sqlite's `Connection::open` (through `sqlite::open`): opens
/// a read-write connection to the database file, creating it if absent.
#[verifier::external_body]
pub fn new_connection(db_path: &str) -> Result<sqlite::Connection, sqlite::Error> {
    sqlite::open(db_path)
}

/// Relies on sqlite's `Connection::execute` with `CREATE TABLE IF NOT
/// EXISTS`: idempotently ensures the table exists, so it is safe on every
/// start.
#[verifier::external_body]
pub fn initialize(connection: &sqlite::Connection) -> Result<(), sqlite::Error> {
    connection.execute(
        "
        CREATE TABLE IF NOT EXISTS CompletedItems (
            Id INTEGER PRIMARY KEY,
            CompletedOn TIMESTAMP,
            Item VARCHAR(255)
            )",
    )
}

/// Relies on sqlite's `Connection::prepare`, `Statement::bind` and
/// `Statement::next` for one parameterized INSERT of the two given texts.
#[verifier::external_body]
fn exec_insert(
    connection: &sqlite::Connection,
    completed_on: &str,
    item: &str,
) -> Result<(), sqlite::Error> {
    let mut statement = connection.prepare(
        "INSERT INTO CompletedItems (CompletedOn, Item) VALUES (?, ?)",
    )?;
    statement.bind((1, completed_on))?;
    statement.bind((2, item))?;
    statement.next()?;
    Ok(())
}

/// Relies on sqlite's `Connection::prepare`, the cursor's `bind` and its
/// row iteration for one parameterized SELECT of the rows whose stored
/// timestamp text compares greater than the given one; rows the cursor
/// fails on are skipped, and each surviving row's two columns are handed
/// back as text.
#[verifier::external_body]
fn query_rows_since(
    connection: &sqlite::Connection,
    since: &str,
) -> Result<Vec<(String, String)>, sqlite::Error> {
    let statement = connection.prepare(
        "SELECT Item, CompletedOn from CompletedItems WHERE CompletedOn > ?",
    )?;
    let cursor = statement.into_iter().bind((1, since))?;
    let mut rows = Vec::new();
    for row in cursor {
        if let Ok(row) = row {
            let completed_on: &str = row.try_read("CompletedOn")?;
            let item: &str = row.try_read("Item")?;
            rows.push((completed_on.to_string(), item.to_string()));
        }
    }
    Ok(rows)
}

/// The views of a sequence of rows, each a timestamp text and a label.
pub open spec fn row_views(rows: Seq<(String, String)>) -> Seq<(Seq<char>, Seq<char>)> {
    rows.map_values(|r: (String, String)| (r.0@, r.1@))
}

/// What reconstructing records out of rows yields: the instant and label
/// of every row in row order, or a failure as soon as any row's
/// timestamp text is not a valid in-range instant.
pub open spec fn rows_spec(rows: Seq<(Seq<char>, Seq<char>)>) -> Result<
    Seq<(int, int, Seq<char>)>,
    ParseError,
>
    decreases rows.len(),
{
    if rows.len() == 0 {
        Ok(Seq::empty())
    } else {
        match rows_spec(rows.drop_last()) {
            Ok(pre) => match instant_of(rows.last().0) {
                Some(p) => Ok(pre.push((p.0, p.1, rows.last().1))),
                None => Err(ParseError::TimestampError),
            },
            Err(e) => Err(e),
        }
    }
}

pub proof fn lemma_rows_spec(rows: Seq<(Seq<char>, Seq<char>)>)
    ensures
        rows_spec(rows) is Ok <==> forall|j: int|
            0 <= j < rows.len() ==> instant_of((#[trigger] rows[j]).0) is Some,
        rows_spec(rows) is Err ==> rows_spec(rows) == Err::<Seq<(int, int, Seq<char>)>, _>(
            ParseError::TimestampError,
        ),
        rows_spec(rows) is Ok ==> rows_spec(rows)->Ok_0.len() == rows.len(),
        rows_spec(rows) is Ok ==> forall|j: int|
            0 <= j < rows.len() ==> rows_spec(rows)->Ok_0[j] == (
            instant_of((#[trigger] rows[j]).0)->Some_0.0,
            instant_of(rows[j].0)->Some_0.1,
            rows[j].1,
        ),
    decreases rows.len(),
{
    if rows.len() > 0 {
        let prefix = rows.drop_last();
        lemma_rows_spec(prefix);
        assert(forall|j: int| 0 <= j < prefix.len() ==> prefix[j] == rows[j]);
        assert(rows[rows.len() - 1] == rows.last());
    }
}

/// Reconstructs the records held in rows read back from the table, in
/// row order. Strict, unlike the log store's read: the first row whose
/// stored timestamp is not a valid in-range instant fails the call.
pub fn items_from_rows(rows: &Vec<(String, String)>) -> (r: Result<Vec<CompletedItem>, ParseError>)
    ensures
        match r {
            Ok(items) => rows_spec(row_views(rows@)) == Ok::<_, ParseError>(
                crate::file::models_of(items@),
            ) && forall|i: int|
                0 <= i < items@.len() ==> (#[trigger] items@[i]).completed.valid(),
            Err(e) => rows_spec(row_views(rows@)) == Err::<Seq<(int, int, Seq<char>)>, _>(e),
        },
{
    let ghost views = row_views(rows@);
    let mut items: Vec<CompletedItem> = Vec::new();
    let mut idx: usize = 0;
    while idx < rows.len()
        invariant
            idx <= rows@.len(),
            views == row_views(rows@),
            items@.len() == idx,
            forall|j: int| 0 <= j < idx ==> instant_of((#[trigger] views[j]).0) is Some,
            forall|j: int|
                0 <= j < idx ==> (#[trigger] items@[j]).model() == (
                instant_of(views[j].0)->Some_0.0,
                instant_of(views[j].0)->Some_0.1,
                views[j].1,
            ),
            forall|i: int| 0 <= i < items@.len() ==> (#[trigger] items@[i]).completed.valid(),
        decreases rows@.len() - idx,
    {
        match Instant::parse_rfc3339(rows[idx].0.as_str()) {
            Some(completed) => {
                let label = rows[idx].1.clone();
                items.push(CompletedItem { completed, item: label });
            },
            None => {
                proof {
                    lemma_rows_spec(views);
                    assert(instant_of(views[idx as int].0) is None);
                    assert(!(rows_spec(views) is Ok));
                }
                return Err(ParseError::TimestampError);
            },
        }
        idx = idx + 1;
    }
    proof {
        lemma_rows_spec(views);
        assert(rows_spec(views)->Ok_0 =~= crate::file::models_of(items@));
    }
    Ok(items)
}

/// Saves every record, best-effort: failures do not stop the batch, and
/// the per-record failures come back, at most one per record.
pub fn save(connection: &sqlite::Connection, completed_items: Vec<CompletedItem>) -> (errors: Vec<
    sqlite::Error,
>)
    requires
        forall|i: int|
            0 <= i < completed_items@.len() ==> (#[trigger] completed_items@[i]).completed.valid(),
    ensures
        errors@.len() <= completed_items@.len(),
{
    let mut errors: Vec<sqlite::Error> = Vec::new();
    let mut idx: usize = 0;
    while idx < completed_items.len()
        invariant
            idx <= completed_items@.len(),
            errors@.len() <= idx,
            forall|i: int|
                0 <= i < completed_items@.len() ==> (
                #[trigger] completed_items@[i]).completed.valid(),
        decreases completed_items@.len() - idx,
    {
        match insert_item(connection, &completed_items[idx]) {
            Ok(_) => {},
            Err(e) => {
                errors.push(e);
            },
        }
        idx = idx + 1;
    }
    errors
}

/// Inserts one record: the instant as its canonical RFC 3339 text, the
/// label raw. Whether the insert itself succeeds is the store's to say.
pub fn insert_item(connection: &sqlite::Connection, completed_item: &CompletedItem) -> Result<
    (),
    sqlite::Error,
>
    requires
        completed_item.completed.valid(),
{
    let completed_on = completed_item.completed.to_rfc3339();
    exec_insert(connection, completed_on.as_str(), completed_item.item.as_str())
}

/// Reads every record whose stored timestamp text compares greater than
/// the cutoff's canonical text, in the store's row order. Whatever rows
/// the store hands back, the answer is their strict reconstruction: each
/// returned record carries a valid instant, and the records are exactly
/// some rows' contents as [`items_from_rows`] states.
pub fn get(connection: &sqlite::Connection, completed_since: &Instant) -> (r: Result<
    Vec<CompletedItem>,
    DbError,
>)
    requires
        completed_since.valid(),
    ensures
        match r {
            Ok(items) => (exists|rows: Seq<(Seq<char>, Seq<char>)>|
                rows_spec(rows) == Ok::<_, ParseError>(crate::file::models_of(items@))) && forall|
                i: int,
            | 0 <= i < items@.len() ==> (#[trigger] items@[i]).completed.valid(),
            Err(_) => true,
        },
{
    let since = completed_since.to_rfc3339();
    match query_rows_since(connection, since.as_str()) {
        Ok(rows) => match items_from_rows(&rows) {
            Ok(items) => {
                proof {
                    let witness = row_views(rows@);
                    assert(rows_spec(witness) == Ok::<_, ParseError>(
                        crate::file::models_of(items@),
                    ));
                }
                Ok(items)
            },
            Err(_) => Err(DbError::TimestampError),
        },
        Err(e) => Err(DbError::BackendError(e)),
    }
}

} // verus!
