//! The check that a repository exists before it is cloned.
//!
//! The address of the repository is fetched once. The repository exists
//! where the answer carries a status of success, which is a status from 200
//! up to 299.

use vstd::prelude::*;

verus! {

/// Whether `status` is a status of success.
pub open spec fn is_success(status: u16) -> bool {
    200 <= status < 300
}

/// Whether the answer with the status `status` shows that the repository
/// exists.
pub fn status_is_success(status: u16) -> (success: bool)
    ensures
        success == is_success(status),
{
    200 <= status && status < 300
}

} // verus!
