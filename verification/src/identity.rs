use vstd::prelude::*;

verus! {

/// Name of the cookie that carries the anonymous identity token.
pub const COOKIE_NAME: &'static str = "calli_user_id";

/// How long an issued identity cookie stays valid, in days.
pub const COOKIE_MAX_AGE_DAYS: u32 = 365;

/// The token, if any, that a cookie text parses to.
pub uninterp spec fn token_of(s: Seq<char>) -> Option<u128>;

/// The canonical text of a token: its lowercase hyphenated rendering.
pub uninterp spec fn text_of(t: u128) -> Seq<char>;

/// Relies on uuid::Uuid::parse_str and Uuid::as_u128: parsing is a function
/// of the input text alone, and never panics.
#[verifier::external_body]
fn parse_token(s: &str) -> (r: Option<u128>)
    ensures
        r == token_of(s@),
{
    match uuid::Uuid::parse_str(s) {
        Ok(u) => Some(u.as_u128()),
        Err(_) => None,
    }
}

/// Relies on uuid::Uuid::new_v4: a fresh random token. Nothing can be
/// promised of a random value.
#[verifier::external_body]
fn new_token() -> (r: u128)
{
    uuid::Uuid::new_v4().as_u128()
}

/// Relies on uuid::Uuid::from_u128 and the Display impl of Uuid: the text is
/// the 36-character lowercase hyphenated form of the token's 16 bytes, a
/// function of the token alone, and Uuid::parse_str parses that form back to
/// the same token.
#[verifier::external_body]
fn token_text(t: u128) -> (r: String)
    ensures
        r@ == text_of(t),
        r@.len() == 36,
        token_of(r@) == Some(t),
{
    uuid::Uuid::from_u128(t).to_string()
}

/// The identity a request acts as: one anonymous author.
#[derive(Clone, Copy, Debug, PartialEq, Eq, Structural)]
pub struct AuthUser {
    pub id: u128,
}

/// Whether an identity was read back from a valid cookie or freshly minted.
#[derive(Clone, Copy, Debug, PartialEq, Eq, Structural)]
pub enum Disposition {
    Recognized,
    Issued,
}

/// What the caller must arrange on the response when a new identity was
/// issued: set this cookie with these attributes.
#[derive(Debug)]
pub struct CookieDirective {
    pub name: String,
    pub value: String,
    pub http_only: bool,
    pub path: String,
    pub max_age_days: u32,
}

/// The outcome of resolving a request's identity.
#[derive(Debug)]
pub struct Resolution {
    pub user: AuthUser,
    pub disposition: Disposition,
    pub set_cookie: Option<CookieDirective>,
}

/// Whether a cookie text is recognized: it parses as a valid token.
pub open spec fn cookie_recognized(cookie: Option<Seq<char>>) -> bool {
    cookie matches Some(c) && token_of(c) is Some
}

/// What resolution owes when the cookie is recognized: the identity is the
/// parsed token, nothing is written back.
pub open spec fn recognized_resolution(c: Seq<char>, r: Resolution) -> bool {
    &&& r.user.id == token_of(c)->Some_0
    &&& r.disposition == Disposition::Recognized
    &&& r.set_cookie is None
}

/// What resolution owes when no valid cookie came: a fresh identity and a
/// directive to set the long-lived identity cookie.
pub open spec fn issued_resolution(r: Resolution) -> bool {
    &&& r.disposition == Disposition::Issued
    &&& r.set_cookie matches Some(d)
    &&& r.set_cookie->Some_0.name@ == COOKIE_NAME@
    &&& r.set_cookie->Some_0.value@ == text_of(r.user.id)
    &&& token_of(r.set_cookie->Some_0.value@) == Some(r.user.id)
    &&& r.set_cookie->Some_0.http_only
    &&& r.set_cookie->Some_0.path@ == "/"@
    &&& r.set_cookie->Some_0.max_age_days == COOKIE_MAX_AGE_DAYS
}

/// Recognize or issue an anonymous identity from an optional cookie value.
///
/// If the cookie parses as a valid token the caller is that identity and no
/// storage or response work is needed; otherwise a fresh random token is
/// minted and the caller must set the returned cookie on the response.
pub fn resolve(cookie: Option<&str>) -> (r: Resolution)
    ensures
        cookie_recognized(opt_str_view(cookie)) ==> recognized_resolution(
            opt_str_view(cookie)->Some_0,
            r,
        ),
        !cookie_recognized(opt_str_view(cookie)) ==> issued_resolution(r),
{
    if let Some(c) = cookie {
        if let Some(t) = parse_token(c) {
            return Resolution {
                user: AuthUser { id: t },
                disposition: Disposition::Recognized,
                set_cookie: None,
            };
        }
    }
    let id = new_token();
    let value = token_text(id);
    Resolution {
        user: AuthUser { id },
        disposition: Disposition::Issued,
        set_cookie: Some(
            CookieDirective {
                name: COOKIE_NAME.to_owned(),
                value,
                http_only: true,
                path: "/".to_owned(),
                max_age_days: COOKIE_MAX_AGE_DAYS,
            },
        ),
    }
}

pub open spec fn opt_str_view(s: Option<&str>) -> Option<Seq<char>> {
    match s {
        Some(v) => Some(v@),
        None => None,
    }
}

/// Law: the cookie an issued identity carries is itself valid, and replaying
/// it on a later request is recognized as the same identity.
pub proof fn lemma_issued_cookie_recognized(r1: Resolution, r2: Resolution)
    requires
        issued_resolution(r1),
        recognized_resolution(r1.set_cookie->Some_0.value@, r2),
    ensures
        cookie_recognized(Some(r1.set_cookie->Some_0.value@)),
        r2.user.id == r1.user.id,
{
}

/// Law: resolving the same valid cookie value twice yields the same identity
/// both times, because a recognized resolution's identity is a function of
/// the cookie text alone.
pub proof fn lemma_identity_idempotent(c: Seq<char>, r1: Resolution, r2: Resolution)
    requires
        token_of(c) is Some,
        recognized_resolution(c, r1),
        recognized_resolution(c, r2),
    ensures
        r1.user.id == r2.user.id,
{
}

} // verus!
