use vstd::prelude::*;

verus! {

/// How a reply of the log API is read.
#[derive(Debug, Clone, Copy, PartialEq, Eq)]
pub enum ResponseClass {
    /// The body holds what was asked for.
    Body,
    /// Nothing to read: the log is empty, or has no entry after the offset.
    NoContent,
    /// The request failed.
    Failure,
}

/// Reads the status of a log API reply: 200 carries a body, 204 means that
/// there is nothing, and any other status is a failure.
pub fn classify_log_status(status: u16) -> (r: ResponseClass)
    ensures
        status == 200 ==> r == ResponseClass::Body,
        status == 204 ==> r == ResponseClass::NoContent,
        status != 200 && status != 204 ==> r == ResponseClass::Failure,
{
    if status == 200 {
        ResponseClass::Body
    } else if status == 204 {
        ResponseClass::NoContent
    } else {
        ResponseClass::Failure
    }
}

/// Whether the receiver accepted a greeting: any 2xx status.
pub fn is_send_success(status: u16) -> (r: bool)
    ensures
        r == (200 <= status <= 299),
{
    200 <= status && status <= 299
}

} // verus!
