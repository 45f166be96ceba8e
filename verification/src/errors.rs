//! Application error types.

use vstd::prelude::*;

verus! {

/// What the download logic reads of an API library error: whether the
/// operation was cancelled, or else the error's message.
#[derive(Clone, Debug)]
pub enum ApiError {
    /// The operation observed its cancellation flag.
    Canceled,
    /// Any other failure, with its message.
    Failed(String),
}

/// Application-level error type.
#[derive(Clone, Debug)]
pub enum AppError {
    /// API library error.
    Api(ApiError),
    /// Keyring access error, with its message.
    Keyring(String),
    /// Settings file I/O error, with its message.
    Settings(String),
    /// Settings JSON parse error, with its message.
    SettingsParse(String),
    /// Download-specific error.
    Download(String),
    /// Operation requires authentication.
    NotAuthenticated,
}

/// The message of a download that stopped because it was cancelled.
pub open spec fn cancelled_message() -> Seq<char> {
    "Download cancelled"@
}

impl AppError {
    /// The error of a download that stopped because it was cancelled.
    pub fn cancelled() -> (e: AppError)
        ensures
            e matches AppError::Download(m) && m@ == cancelled_message(),
    {
        AppError::Download(String::from_str("Download cancelled"))
    }
}

/// Whether an error reports a cancellation rather than a failure.
pub fn is_cancelled_error(err: &AppError) -> (b: bool)
    ensures
        b == match err {
            AppError::Api(ApiError::Canceled) => true,
            AppError::Download(m) => m@ == cancelled_message(),
            _ => false,
        },
{
    match err {
        AppError::Api(ApiError::Canceled) => true,
        AppError::Download(msg) => {
            let m = crate::text::chars_of(msg.as_str());
            let c = crate::text::chars_of("Download cancelled");
            crate::text::chars_eq(&m, &c)
        },
        _ => false,
    }
}

} // verus!
