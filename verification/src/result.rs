//! The result of a call as the coordinator hands it to its caller.

use crate::error::Error;
use vstd::prelude::*;
use vstd::string::StringExecFns;

verus! {

/// The result of a call: the data where it succeeded, else what went wrong.
#[derive(Debug)]
pub struct HarnessResult<T> {
    pub error: String,
    pub success: bool,
    pub data: Option<T>,
}

impl<T> HarnessResult<T> {
    /// The result of a call that failed with `err`.
    pub fn wrap_error(err: Error) -> (r: Self)
        ensures
            r.error@ == err.text(),
            !r.success,
            r.data is None,
    {
        HarnessResult { error: err.to_string(), success: false, data: None }
    }

    /// The result of a call that failed, with the failure as text.
    pub fn wrap_error_str(err: &str) -> (r: Self)
        ensures
            r.error@ == err@,
            !r.success,
            r.data is None,
    {
        HarnessResult { error: String::from_str(err), success: false, data: None }
    }

    /// The result of a call that returned `data`.
    pub fn wrap_success(data: T) -> (r: Self)
        ensures
            r.error@.len() == 0,
            r.success,
            r.data == Some(data),
    {
        HarnessResult { error: String::new(), success: true, data: Some(data) }
    }
}

} // verus!
