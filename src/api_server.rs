//! The payloads of the REST control surface.
use vstd::prelude::*;

verus! {

/// The envelope of every REST reply: the data on success, a message on
/// failure.
#[derive(Debug)]
pub struct ApiResponse<T> {
    pub success: bool,
    pub data: Option<T>,
    pub error: Option<String>,
}

/// The state that the status endpoint reports.
#[derive(Debug)]
pub struct StatusResponse {
    pub click_through_enabled: bool,
    pub always_on_top: bool,
    pub subtitle_count: usize,
}

impl<T> ApiResponse<T> {
    /// A successful reply carrying `data`.
    pub fn success(data: T) -> (r: Self)
        ensures
            r.success,
            r.data == Some(data),
            r.error is None,
    {
        ApiResponse { success: true, data: Some(data), error: None }
    }

    /// A failed reply carrying the message `error`.
    pub fn error(error: String) -> (r: Self)
        ensures
            !r.success,
            r.data is None,
            r.error == Some(error),
    {
        ApiResponse { success: false, data: None, error: Some(error) }
    }
}

} // verus!
