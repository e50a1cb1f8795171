//! Rules of a table refresh: which pages are read, and when an existing table
//! may be replaced.
use vstd::prelude::*;

verus! {

/// First listing page of the directory.
pub const FIRST_PAGE: u32 = 1;

/// Last listing page of the directory, one per letter of the alphabet.
pub const LAST_PAGE: u32 = 26;

/// A table already exists and replacing it was not asked for.
#[derive(Clone, Copy, Debug, PartialEq, Eq, Structural)]
pub struct FileExistsError;

/// Whether a refresh may go ahead: it may unless a table exists and `force` is
/// not set. Decided before any page is fetched.
pub fn check_update(table_exists: bool, force: bool) -> (r: Result<(), FileExistsError>)
    ensures
        r is Err <==> table_exists && !force,
{
    if table_exists && !force {
        Err(FileExistsError)
    } else {
        Ok(())
    }
}

} // verus!
