//! The plugin database: where it is kept and when it is out of date.

use vstd::prelude::*;
use crate::text::str_concat;

verus! {

/// `chrono::ParseError`, carried through opaquely.
#[verifier::external_type_specification]
#[verifier::external_body]
pub struct ExChronoParseError(chrono::ParseError);

/// The Unix time that `chrono::NaiveDateTime::parse_from_str` reads from
/// `text` in the format `fmt`, taken as UTC; none when it cannot read it.
pub uninterp spec fn naive_timestamp(text: Seq<char>, fmt: Seq<char>) -> Option<i64>;

/// `chrono::NaiveDateTime::parse_from_str`, then the Unix time of the date
/// taken as UTC. The result is named by `naive_timestamp`.
#[verifier::external_body]
fn parse_timestamp(text: &str, fmt: &str) -> (res: Result<i64, chrono::ParseError>)
    ensures
        match res {
            Ok(t) => naive_timestamp(text@, fmt@) == Some(t),
            Err(_) => naive_timestamp(text@, fmt@) is None,
        },
{
    match chrono::NaiveDateTime::parse_from_str(text, fmt) {
        Ok(t) => Ok(t.and_utc().timestamp()),
        Err(e) => Err(e),
    }
}

/// Why the database cannot be judged.
#[derive(Debug, PartialEq, Eq, Structural)]
pub enum DatabaseError {
    /// The date of the last commit is not an ISO 8601 date in quotes.
    BadCommitDate,
}

/// The format of the commit date as the commits API gives it: an ISO 8601
/// date in JSON quotes.
pub open spec fn commit_date_format() -> Seq<char> {
    "\"%+\""@
}

/// The time of the last change of the remote database, from the date of its
/// last commit as it stands in the JSON of the commits API (quoted).
pub fn remote_update_time(commit_date: &str) -> (res: Result<i64, DatabaseError>)
    ensures
        match naive_timestamp(commit_date@, commit_date_format()) {
            Some(t) => res == Ok::<i64, DatabaseError>(t),
            None => res == Err::<i64, DatabaseError>(DatabaseError::BadCommitDate),
        },
{
    match parse_timestamp(commit_date, "\"%+\"") {
        Ok(t) => Ok(t),
        Err(_) => Err(DatabaseError::BadCommitDate),
    }
}

/// The local database is out of date when the remote one changed later.
pub fn outdated(remote_time: i64, local_time: i64) -> (res: bool)
    ensures
        res == (remote_time > local_time),
{
    remote_time > local_time
}

/// The directory that holds the database, under the user's data directory.
pub fn database_dir(data_dir: &str) -> (res: String)
    ensures
        res@ == data_dir@ + "/pnp"@,
{
    str_concat(data_dir, "/pnp")
}

/// The database file, under the user's data directory.
pub fn database_path(data_dir: &str) -> (res: String)
    ensures
        res@ == data_dir@ + "/pnp/database.json"@,
{
    str_concat(data_dir, "/pnp/database.json")
}

} // verus!
