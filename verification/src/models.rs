use vstd::prelude::*;

verus! {

/// Upper bound on the number of Unicode scalar values in a posting's content.
pub const MAX_CONTENT_CHARS: usize = 50;

/// Upper bound on the number of Unicode scalar values in a display name.
pub const MAX_NAME_CHARS: usize = 20;

/// The mathematical model of one stored posting. Timestamps are opaque
/// clock readings; their unit is whatever the caller's clock uses.
pub struct Posting {
    pub user_id: u128,
    pub user_name: Seq<char>,
    pub content: Seq<char>,
    pub ip_address: Option<u128>,
    pub user_agent: Option<Seq<char>>,
    pub accept_language: Option<Seq<char>>,
    pub created_at: u64,
    pub updated_at: u64,
}

/// One record per identity: the single short text an anonymous author has
/// posted, together with optional request diagnostics.
#[derive(Debug)]
pub struct Calligraphy {
    /// The author's anonymous identity token.
    pub user_id: u128,
    pub user_name: String,
    pub content: String,
    /// Source address of the writing request, for diagnostics only.
    pub ip_address: Option<u128>,
    /// User-Agent of the writing request, for diagnostics only.
    pub user_agent: Option<String>,
    /// Accept-Language of the writing request, for diagnostics only.
    pub accept_language: Option<String>,
    pub created_at: u64,
    pub updated_at: u64,
}

pub open spec fn opt_string_view(s: Option<String>) -> Option<Seq<char>> {
    match s {
        Some(v) => Some(v@),
        None => None,
    }
}

impl View for Calligraphy {
    type V = Posting;

    open spec fn view(&self) -> Posting {
        Posting {
            user_id: self.user_id,
            user_name: self.user_name@,
            content: self.content@,
            ip_address: self.ip_address,
            user_agent: opt_string_view(self.user_agent),
            accept_language: opt_string_view(self.accept_language),
            created_at: self.created_at,
            updated_at: self.updated_at,
        }
    }
}

/// Request body for creating or replacing a posting.
pub struct CreateCalligraphyRequest {
    pub user_name: String,
    pub content: String,
}

/// One posting as rendered to a caller, flagged with whether the requesting
/// identity authored it.
#[derive(Debug)]
pub struct CalligraphyResponse {
    pub user_name: String,
    pub content: String,
    pub created_at: u64,
    pub updated_at: u64,
    pub is_mine: bool,
}

/// Whether a content text is within the allowed length, counted in Unicode
/// scalar values.
pub open spec fn content_len_ok(content: Seq<char>) -> bool {
    content.len() <= MAX_CONTENT_CHARS
}

/// Whether a display name is within the allowed length, counted in Unicode
/// scalar values.
pub open spec fn name_len_ok(user_name: Seq<char>) -> bool {
    user_name.len() <= MAX_NAME_CHARS
}

} // verus!
