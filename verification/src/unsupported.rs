//! Platforms without an input method backend: every operation fails.

use vstd::prelude::*;

use crate::error::{ErrorModel, ImSwitchError};

verus! {

/// Fails: no input method backend.
pub fn get_input_method() -> (r: Result<String, ImSwitchError>)
    ensures
        r matches Err(e) && e@ == ErrorModel::UnsupportedPlatform,
{
    Err(ImSwitchError::UnsupportedPlatform)
}

/// Fails: no input method backend.
pub fn set_input_method(_im: &str) -> (r: Result<(), ImSwitchError>)
    ensures
        r matches Err(e) && e@ == ErrorModel::UnsupportedPlatform,
{
    Err(ImSwitchError::UnsupportedPlatform)
}

/// Fails: no input method backend.
pub fn list_input_methods() -> (r: Result<Vec<String>, ImSwitchError>)
    ensures
        r matches Err(e) && e@ == ErrorModel::UnsupportedPlatform,
{
    Err(ImSwitchError::UnsupportedPlatform)
}

} // verus!
