//! Clipboard helpers.
//!
//! Text and table copies are not available yet; both say so.

use crate::failure::Failure;
use vstd::prelude::*;

verus! {

/// Copy plain text to the clipboard. Not available yet: always fails.
pub fn copy_text(_text: &str) -> (r: Result<(), Failure>)
    ensures
        r matches Err(e) && e.message@ == "not implemented yet"@,
{
    Err(Failure { message: "not implemented yet".to_string() })
}

/// Copy a table so that it pastes as a grid. Not available yet: always fails.
pub fn copy_table(_table_markdown_or_html: &str) -> (r: Result<(), Failure>)
    ensures
        r matches Err(e) && e.message@ == "not implemented yet"@,
{
    Err(Failure { message: "not implemented yet".to_string() })
}

} // verus!
