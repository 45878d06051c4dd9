use vstd::prelude::*;

verus! {

/// An open SQLite database.
#[verifier::external_type_specification]
#[verifier::external_body]
pub struct ExConnection(rusqlite::Connection);

/// What a failed SQLite call reports.
#[verifier::external_type_specification]
#[verifier::external_body]
pub struct ExError(rusqlite::Error);

/// The query that ranks the records of one filename: longest duration first, then lowest
/// sample rate, then latest entry date.
pub const BEST_RECORD_QUERY: &'static str = "
        SELECT record_id
        FROM justinmetadata
        WHERE filename = ?
        ORDER BY 
        duration DESC,       -- 1. Prefer longer duration
        samplerate ASC,      -- 2. If duration is the same, prefer lower sample rate
        entrydate DESC       -- 3. If sample rate is the same, prefer more recent entry date
        LIMIT 1                 -- Get the best match
        ";

/// Runs `sql` with `param` bound to its placeholder, by `rusqlite::Connection::query_row`,
/// and reads the first column of the first row as a `usize` with `Row::get`.
///
/// The row comes from the database file, so which value comes back is not stated. What holds
/// of every value: `Row::get` reads a SQLite integer, an `i64`, and converts it with
/// `try_into`, so a value that comes back is at most `i64::MAX`.
#[verifier::external_body]
fn query_row_usize(conn: &rusqlite::Connection, sql: &str, param: &str) -> (res: Result<
    usize,
    rusqlite::Error,
>)
    ensures
        res matches Ok(v) ==> v <= i64::MAX,
{
    conn.query_row(sql, [param], |row| row.get(0))
}

/// The row id of the record that the database ranks best among those named `filename`, by
/// [`BEST_RECORD_QUERY`].
///
/// The ranking is made by the database from its contents, so no clause states which id comes
/// back; a row id is a SQLite integer, so it is at most `i64::MAX`.
pub fn get_best_record_id(conn: &rusqlite::Connection, filename: &str) -> (res: Result<
    usize,
    rusqlite::Error,
>)
    ensures
        res matches Ok(id) ==> id <= i64::MAX,
{
    query_row_usize(conn, BEST_RECORD_QUERY, filename)
}

} // verus!
