//! The status codes that report a listing across the file system boundary.
use vstd::prelude::*;
use crate::listing::ReadDirError;

verus! {

/// Relies on `libc::EACCES`, the error number for "permission denied"
/// (13 on Linux, macOS and the BSDs).
#[verifier::external_body]
fn eacces() -> (r: i32)
    ensures
        r == 13,
{
    libc::EACCES
}

/// Relies on `libc::EBUSY`, the error number for "device or resource busy"
/// (16 on Linux, macOS and the BSDs).
#[verifier::external_body]
fn ebusy() -> (r: i32)
    ensures
        r == 16,
{
    libc::EBUSY
}

/// Relies on `libc::EXIT_SUCCESS`, the status of success (0).
#[verifier::external_body]
fn exit_success() -> (r: i32)
    ensures
        r == 0,
{
    libc::EXIT_SUCCESS
}

/// The status code that reports `err` across the file system boundary:
/// "permission denied" (13) for a query that could not be prepared and for a
/// path that is not text, "busy" (16) for a failure among the rows.
pub open spec fn error_status(err: ReadDirError) -> i32 {
    match err {
        ReadDirError::EBusy => 16,
        _ => 13,
    }
}

/// The status code of a listing's result: 0 on success, else the code of
/// its error.
pub open spec fn result_status(result: Result<(), ReadDirError>) -> i32 {
    match result {
        Ok(()) => 0,
        Err(err) => error_status(err),
    }
}

impl From<ReadDirError> for i32 {
    fn from(err: ReadDirError) -> (r: i32) {
        match err {
            ReadDirError::EBusy => ebusy(),
            _ => eacces(),
        }
    }
}

impl vstd::std_specs::convert::FromSpecImpl<ReadDirError> for i32 {
    open spec fn obeys_from_spec() -> bool {
        true
    }

    open spec fn from_spec(v: ReadDirError) -> i32 {
        error_status(v)
    }
}

/// The status code of a listing's result, as the file system bridge reports it.
pub fn status_code(result: Result<(), ReadDirError>) -> (r: i32)
    ensures
        r == result_status(result),
{
    match result {
        Ok(()) => exit_success(),
        Err(err) => i32::from(err),
    }
}

} // verus!
