//! The directories of the user, as the system names them.
use vstd::prelude::*;

verus! {

/// Calls `dirs::home_dir`. Which directory comes, if any, rests with the user's
/// environment: nothing is claimed of it. One whose name is not Unicode
/// counts as none.
#[verifier::external_body]
pub(crate) fn user_home_dir() -> (dir: Option<String>) {
    match dirs::home_dir() {
        Some(path) => path.into_os_string().into_string().ok(),
        None => None,
    }
}

/// Calls `dirs::config_dir`. Which directory comes, if any, rests with the
/// user's environment: nothing is claimed of it. One whose name is not
/// Unicode counts as none.
#[verifier::external_body]
pub(crate) fn user_config_dir() -> (dir: Option<String>) {
    match dirs::config_dir() {
        Some(path) => path.into_os_string().into_string().ok(),
        None => None,
    }
}

/// Calls `dirs::state_dir`. Which directory comes, if any, rests with the
/// user's environment: nothing is claimed of it. One whose name is not
/// Unicode counts as none.
#[verifier::external_body]
pub(crate) fn user_state_dir() -> (dir: Option<String>) {
    match dirs::state_dir() {
        Some(path) => path.into_os_string().into_string().ok(),
        None => None,
    }
}

/// Calls `dirs::data_local_dir`. Which directory comes, if any, rests with the
/// user's environment: nothing is claimed of it. One whose name is not
/// Unicode counts as none.
#[verifier::external_body]
pub(crate) fn user_data_local_dir() -> (dir: Option<String>) {
    match dirs::data_local_dir() {
        Some(path) => path.into_os_string().into_string().ok(),
        None => None,
    }
}

/// Calls `dirs::cache_dir`. Which directory comes, if any, rests with the
/// user's environment: nothing is claimed of it. One whose name is not
/// Unicode counts as none.
#[verifier::external_body]
pub(crate) fn user_cache_dir() -> (dir: Option<String>) {
    match dirs::cache_dir() {
        Some(path) => path.into_os_string().into_string().ok(),
        None => None,
    }
}

} // verus!
