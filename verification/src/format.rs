//! Output formats of the end-of-run summary.

use vstd::prelude::*;

verus! {

/// Form in which the end-of-run summary is rendered.
#[derive(Clone, Copy, Debug, PartialEq, Eq, Structural)]
pub enum Format {
    Table,
    Json,
    JsonPretty,
}

impl Default for Format {
    fn default() -> (f: Format)
        ensures
            f == Format::Table,
    {
        Format::Table
    }
}

} // verus!
