use vstd::prelude::*;

use crate::error::AppError;
use crate::identity::AuthUser;
use crate::models::{
    content_len_ok, name_len_ok, opt_string_view, Calligraphy, CalligraphyResponse,
    CreateCalligraphyRequest, Posting,
};
use crate::ratelimit::OpClass;
use crate::service::{CalligraphyService, CONTENT_LEN_MSG, NAME_LEN_MSG};
use crate::store::{recent_listing, upserted, CalligraphyRepositoryTrait};

verus! {

/// Whether a rendered response shows exactly the posting `p`, flagged with
/// `is_mine`.
pub open spec fn response_matches(resp: CalligraphyResponse, p: Posting, is_mine: bool) -> bool {
    &&& resp.user_name@ == p.user_name
    &&& resp.content@ == p.content
    &&& resp.created_at == p.created_at
    &&& resp.updated_at == p.updated_at
    &&& resp.is_mine == is_mine
}

/// Whether `v` renders some recent-first listing of `rows`, each item
/// flagged with whether `viewer` authored it.
pub open spec fn annotated_listing(
    rows: Map<u128, Posting>,
    v: Seq<CalligraphyResponse>,
    viewer: u128,
) -> bool {
    exists|s: Seq<Posting>|
        {
            &&& #[trigger] recent_listing(rows, s)
            &&& v.len() == s.len()
            &&& forall|i: int|
                0 <= i < s.len() ==> response_matches(v[i], s[i], s[i].user_id == viewer)
        }
}

fn render(c: Calligraphy, is_mine: bool) -> (resp: CalligraphyResponse)
    ensures
        response_matches(resp, c@, is_mine),
{
    CalligraphyResponse {
        user_name: c.user_name,
        content: c.content,
        created_at: c.created_at,
        updated_at: c.updated_at,
        is_mine,
    }
}

/// Create or replace the caller's posting and answer with the stored row,
/// flagged as the caller's own.
pub fn upsert<R: CalligraphyRepositoryTrait>(
    service: &mut CalligraphyService<R>,
    auth_user: AuthUser,
    ip: Option<u128>,
    user_agent: Option<String>,
    accept_language: Option<String>,
    payload: CreateCalligraphyRequest,
    now: u64,
) -> (r: Result<CalligraphyResponse, AppError>)
    ensures
        final(service).buckets() == old(service).buckets_after(ip, OpClass::Write, now),
        final(service).window_len() == old(service).window_len(),
        final(service).max_ops() == old(service).max_ops(),
        !old(service).op_permitted(ip, OpClass::Write, now) ==> (r matches Err(
            AppError::TooManyRequests,
        ) && final(service).rows() == old(service).rows()),
        old(service).op_permitted(ip, OpClass::Write, now) && !content_len_ok(payload.content@)
            ==> (r matches Err(AppError::Validation(m)) && m@ == CONTENT_LEN_MSG@ && final(service).rows() == old(service).rows()),
        old(service).op_permitted(ip, OpClass::Write, now) && content_len_ok(payload.content@)
            && !name_len_ok(payload.user_name@) ==> (r matches Err(AppError::Validation(m)) && m@
            == NAME_LEN_MSG@ && final(service).rows() == old(service).rows()),
        old(service).op_permitted(ip, OpClass::Write, now) && content_len_ok(payload.content@)
            && name_len_ok(payload.user_name@) ==> match r {
            Ok(resp) => {
                let rec = upserted(
                    old(service).rows(),
                    auth_user.id,
                    payload.user_name@,
                    payload.content@,
                    ip,
                    opt_string_view(user_agent),
                    opt_string_view(accept_language),
                    now,
                );
                &&& response_matches(resp, rec, true)
                &&& final(service).rows() == old(service).rows().insert(auth_user.id, rec)
            },
            Err(e) => e matches AppError::Database(_) && final(service).rows() == old(service).rows(),
        },
{
    let created = service.upsert(
        auth_user.id,
        payload.user_name,
        payload.content,
        ip,
        user_agent,
        accept_language,
        now,
    )?;
    Ok(render(created, true))
}

/// List all postings, newest first, each flagged with whether the caller
/// authored it. All postings are visible to every caller.
pub fn list<R: CalligraphyRepositoryTrait>(
    service: &mut CalligraphyService<R>,
    auth_user: AuthUser,
    ip: Option<u128>,
    now: u64,
) -> (r: Result<Vec<CalligraphyResponse>, AppError>)
    ensures
        final(service).rows() == old(service).rows(),
        final(service).buckets() == old(service).buckets_after(ip, OpClass::Read, now),
        final(service).window_len() == old(service).window_len(),
        final(service).max_ops() == old(service).max_ops(),
        match r {
            Ok(v) => old(service).op_permitted(ip, OpClass::Read, now) && annotated_listing(
                old(service).rows(),
                v@,
                auth_user.id,
            ),
            Err(e) => match e {
                AppError::TooManyRequests => !old(service).op_permitted(ip, OpClass::Read, now),
                AppError::Database(_) => old(service).op_permitted(ip, OpClass::Read, now),
                _ => false,
            },
        },
{
    let items = service.get_all(ip, now)?;
    let ghost s = items@.map_values(|c: Calligraphy| c@);
    let mut out: Vec<CalligraphyResponse> = Vec::new();
    let mut i: usize = 0;
    let n = items.len();
    while i < n
        invariant
            n == items@.len(),
            i <= n,
            s == items@.map_values(|c: Calligraphy| c@),
            out@.len() == i,
            forall|j: int|
                0 <= j < i ==> response_matches(
                    #[trigger] out@[j],
                    s[j],
                    s[j].user_id == auth_user.id,
                ),
        decreases n - i,
    {
        let item = &items[i];
        let is_mine = item.user_id == auth_user.id;
        let resp = CalligraphyResponse {
            user_name: item.user_name.clone(),
            content: item.content.clone(),
            created_at: item.created_at,
            updated_at: item.updated_at,
            is_mine,
        };
        proof {
            assert(s[i as int] == items@[i as int]@);
        }
        out.push(resp);
        i = i + 1;
    }
    proof {
        assert(recent_listing(old(service).rows(), s));
        assert(annotated_listing(old(service).rows(), out@, auth_user.id));
    }
    Ok(out)
}

/// Fetch the caller's own posting, flagged as theirs.
pub fn get<R: CalligraphyRepositoryTrait>(
    service: &mut CalligraphyService<R>,
    auth_user: AuthUser,
    ip: Option<u128>,
    now: u64,
) -> (r: Result<CalligraphyResponse, AppError>)
    ensures
        final(service).rows() == old(service).rows(),
        final(service).buckets() == old(service).buckets_after(ip, OpClass::Read, now),
        final(service).window_len() == old(service).window_len(),
        final(service).max_ops() == old(service).max_ops(),
        match r {
            Ok(resp) => old(service).op_permitted(ip, OpClass::Read, now) && old(service).rows().contains_key(auth_user.id) && response_matches(
                resp,
                old(service).rows()[auth_user.id],
                true,
            ),
            Err(e) => match e {
                AppError::TooManyRequests => !old(service).op_permitted(ip, OpClass::Read, now),
                AppError::NotFound => old(service).op_permitted(ip, OpClass::Read, now) && !old(service).rows().contains_key(auth_user.id),
                AppError::Database(_) => old(service).op_permitted(ip, OpClass::Read, now),
                _ => false,
            },
        },
{
    let found = service.get(auth_user.id, ip, now)?;
    Ok(render(found, true))
}

/// Delete the caller's own posting.
pub fn delete<R: CalligraphyRepositoryTrait>(
    service: &mut CalligraphyService<R>,
    auth_user: AuthUser,
    ip: Option<u128>,
    now: u64,
) -> (r: Result<(), AppError>)
    ensures
        final(service).buckets() == old(service).buckets_after(ip, OpClass::Write, now),
        final(service).window_len() == old(service).window_len(),
        final(service).max_ops() == old(service).max_ops(),
        match r {
            Ok(_) => old(service).op_permitted(ip, OpClass::Write, now) && old(service).rows().contains_key(auth_user.id) && final(service).rows() == old(service).rows().remove(auth_user.id),
            Err(e) => final(service).rows() == old(service).rows() && match e {
                AppError::TooManyRequests => !old(service).op_permitted(ip, OpClass::Write, now),
                AppError::NotFound => old(service).op_permitted(ip, OpClass::Write, now) && !old(service).rows().contains_key(auth_user.id),
                AppError::Database(_) => old(service).op_permitted(ip, OpClass::Write, now),
                _ => false,
            },
        },
{
    service.delete(auth_user.id, ip, now)?;
    Ok(())
}

} // verus!
