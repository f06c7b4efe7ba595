//! Payloads for trying a recordings directory.

use vstd::prelude::*;

verus! {

/// Request to try a recordings directory without saving it.
#[derive(Debug)]
pub struct TestDirectoryRequest {
    /// `None` or empty tests the default location.
    pub path: Option<String>,
}

/// The outcome of trying a directory.
///
/// A failed test is a normal answer rather than an API error, so this comes back with a 200 and `ok`
/// set to false. The client always gets the same shape and never has to parse an error envelope to find
/// out why a path will not work.
#[derive(Debug)]
pub struct TestDirectoryResponse {
    pub ok: bool,
    pub resolved_path: String,
    pub exists: bool,
    pub will_create: bool,
    pub readable: bool,
    pub writable: bool,
    pub message: String,
}

} // verus!
