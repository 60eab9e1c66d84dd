//! Client library for a remote "chief of staff" assistant service.
//!
//! The library covers the parts of the client with design weight: layered
//! configuration resolution (defaults, a persisted file, environment
//! overrides), the typed request builders and response interpreters for each
//! remote capability, session-identifier generation and continuity, and the
//! decision logic of the multi-step workflows. Transport, terminal rendering
//! and argument parsing live outside the library.

pub mod config;
pub mod dispatch;
pub mod json;
pub mod jsonparse;
pub mod records;
pub mod requests;
pub mod responses;
pub mod session;
pub mod workflow;
pub mod strutil;

use vstd::prelude::*;

verus! {

/// True exactly when `status` is a success code in the HTTP sense:
/// the 2xx range.
pub open spec fn spec_is_success(status: u16) -> bool {
    200 <= status <= 299
}

/// Classifies an HTTP status code as success (2xx) or not.
pub fn is_success(status: u16) -> (r: bool)
    ensures
        r == spec_is_success(status),
{
    200 <= status && status <= 299
}

} // verus!
