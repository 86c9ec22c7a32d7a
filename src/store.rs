use crate::snippet::{collection_view, Snippet};
use vstd::prelude::*;

verus! {

/// The store's file exists but does not hold a readable collection.
#[derive(Debug, PartialEq, Eq, Structural)]
pub struct StoreCorruptError {}

/// What loading makes of what was found: no file is a first run and gives an
/// empty collection; a file that was read gives what it held; a file that
/// could not be read as a collection is an error, never an empty collection,
/// so that a later save cannot overwrite the user's data.
pub fn resolve_load(file_found: bool, parsed: Option<Vec<Snippet>>) -> (r: Result<
    Vec<Snippet>,
    StoreCorruptError,
>)
    ensures
        !file_found ==> (r matches Ok(c) && c@.len() == 0),
        file_found ==> (r is Ok <==> parsed is Some),
        file_found && parsed is Some ==> (r matches Ok(c) && collection_view(c@) == collection_view(
            parsed->Some_0@,
        )),
{
    if !file_found {
        return Ok(Vec::new());
    }
    match parsed {
        Some(c) => Ok(c),
        None => Err(StoreCorruptError {  }),
    }
}

} // verus!
