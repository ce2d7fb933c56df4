//! What a single-row fetch makes of the rows a query returned.

use vstd::prelude::*;

use crate::error::DuckLakeError;

verus! {

/// The first row, or [`DuckLakeError::NotFound`] when the query returned
/// none: what `fetch_one` answers.
pub fn first_row<T>(rows: Vec<T>) -> (r: Result<T, DuckLakeError>)
    ensures
        rows@.len() == 0 ==> r matches Err(DuckLakeError::NotFound),
        rows@.len() > 0 ==> r == Ok::<T, DuckLakeError>(rows@[0]),
{
    let mut rows = rows;
    if rows.len() == 0 {
        Err(DuckLakeError::NotFound)
    } else {
        Ok(rows.remove(0))
    }
}

/// The first row, if the query returned any: what `fetch_optional` answers.
pub fn first_row_optional<T>(rows: Vec<T>) -> (r: Option<T>)
    ensures
        rows@.len() == 0 ==> r is None,
        rows@.len() > 0 ==> r == Some(rows@[0]),
{
    let mut rows = rows;
    if rows.len() == 0 {
        None
    } else {
        Some(rows.remove(0))
    }
}

} // verus!
