//! The metadata store, reached through rusqlite.
//!
//! What a query returns depends on what the database holds, so the items
//! below promise nothing of their results: the lister is verified for every
//! outcome of them.
use vstd::prelude::*;
use rusqlite::{CachedStatement, Connection, Error, Row, Rows};

verus! {

/// rusqlite's connection to a database, opaque here: borrowed for one listing.
#[verifier::external_type_specification]
#[verifier::external_body]
pub struct ExConnection(Connection);

/// A prepared statement held in the connection's cache, opaque here.
#[verifier::external_type_specification]
#[verifier::external_body]
pub struct ExCachedStatement<'conn>(CachedStatement<'conn>);

/// The rows of a running query, opaque here.
#[verifier::external_type_specification]
#[verifier::external_body]
pub struct ExRows<'stmt>(Rows<'stmt>);

/// One row of a running query, opaque here.
#[verifier::external_type_specification]
#[verifier::external_body]
pub struct ExRow<'stmt>(Row<'stmt>);

/// rusqlite's error, carried to the caller unread.
#[verifier::external_type_specification]
#[verifier::external_body]
pub struct ExError(Error);

/// Relies on `Connection::prepare_cached`: compiles `sql` on `conn`, or takes
/// it from the connection's statement cache; `Err` when SQLite refuses it.
#[verifier::external_body]
pub(crate) fn prepare<'c>(conn: &'c Connection, sql: &str) -> (r: Result<CachedStatement<'c>, Error>) {
    conn.prepare_cached(sql)
}

/// Relies on `Statement::query`: binds `first` to `?1` and `second` to `?2`
/// and starts the query; `Err` when binding fails.
#[verifier::external_body]
pub(crate) fn query<'s>(stmt: &'s mut CachedStatement<'_>, first: &str, second: &str) -> (r: Result<Rows<'s>, Error>) {
    stmt.query((first, second))
}

/// Relies on `Rows::next`: steps the query; `Ok(None)` once every row was
/// returned, `Err` when the step fails.
#[verifier::external_body]
pub(crate) fn next_row<'r, 's>(rows: &'r mut Rows<'s>) -> (r: Result<Option<&'r Row<'s>>, Error>) {
    rows.next()
}

/// Relies on `Row::get`: reads the first column of `row` as a `String`;
/// `Err` when the value is not text or not valid UTF-8.
#[verifier::external_body]
pub(crate) fn first_text(row: &Row<'_>) -> (r: Result<String, Error>) {
    row.get(0)
}

} // verus!
