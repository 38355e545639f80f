//! The HTTP verbs a request helper can use.
//!
//! The request helper itself performs network I/O and lives with the
//! application code around this library; only the verb enumeration is part
//! of the library's data model.

use vstd::prelude::*;

verus! {

/// An HTTP verb.
#[derive(Clone, Copy, Debug, PartialEq, Eq, Structural)]
pub enum Method {
    Get,
    Post,
    Put,
    Patch,
    Delete,
}

} // verus!
