//! Network access from a plugin.
use vstd::prelude::*;
use crate::permissions::PermissionError;

verus! {

/// Options of a fetch request.
#[derive(Debug)]
pub struct FetchOptions {}

/// Why a fetch failed.
#[derive(Debug)]
pub enum FetchError {
    AccessDenied(PermissionError),
}

/// A fetch request. Plugins are not granted network access: every request
/// is refused with the `socigy.internet` permission.
pub fn fetch<T>() -> (r: Result<T, FetchError>)
    ensures
        r matches Err(FetchError::AccessDenied(e)) && e.permission@ == "socigy.internet"@
            && e.message@ == "Permission was not allowed"@,
{
    Err(
        FetchError::AccessDenied(
            PermissionError {
                permission: "socigy.internet".to_string(),
                message: "Permission was not allowed".to_string(),
            },
        ),
    )
}

} // verus!
