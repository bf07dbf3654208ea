use vstd::prelude::*;

verus! {

/// An opaque storage failure. The stored detail is meant for server-side
/// logging only; callers surface a generic message instead.
#[derive(Debug)]
pub struct StoreError {
    pub detail: String,
}

/// The failures a posting operation can produce.
#[derive(Debug)]
pub enum AppError {
    /// Any error surfaced by the store gateway (connectivity, constraint,
    /// timeout). Its detail is never shown to the caller.
    Database(StoreError),
    /// The targeted identity has no posting.
    NotFound,
    /// An input violates a length constraint; carries the reason.
    Validation(String),
    /// A rate-limit permit check was denied.
    TooManyRequests,
    /// Catch-all for conditions not otherwise classified.
    Internal,
}

impl AppError {
    /// The HTTP-equivalent status code of this failure.
    pub open spec fn spec_status_code(&self) -> u16 {
        match self {
            AppError::Database(_) => 500,
            AppError::NotFound => 404,
            AppError::Validation(_) => 400,
            AppError::TooManyRequests => 429,
            AppError::Internal => 500,
        }
    }

    /// The message shown to the caller: validation failures carry their
    /// reason, everything else is a fixed redacted text.
    pub open spec fn spec_public_message(&self) -> Seq<char> {
        match self {
            AppError::Database(_) => "Internal Server Error"@,
            AppError::NotFound => "Resource Not Found"@,
            AppError::Validation(m) => m@,
            AppError::TooManyRequests => "Too Many Requests"@,
            AppError::Internal => "Internal Server Error"@,
        }
    }

    pub fn status_code(&self) -> (code: u16)
        ensures
            code == self.spec_status_code(),
    {
        match self {
            AppError::Database(_) => 500,
            AppError::NotFound => 404,
            AppError::Validation(_) => 400,
            AppError::TooManyRequests => 429,
            AppError::Internal => 500,
        }
    }

    pub fn public_message(&self) -> (msg: String)
        ensures
            msg@ == self.spec_public_message(),
    {
        match self {
            AppError::Database(_) => "Internal Server Error".to_owned(),
            AppError::NotFound => "Resource Not Found".to_owned(),
            AppError::Validation(m) => m.clone(),
            AppError::TooManyRequests => "Too Many Requests".to_owned(),
            AppError::Internal => "Internal Server Error".to_owned(),
        }
    }
}

} // verus!
