use vstd::prelude::*;

use crate::error::{AppError, StoreError};
use crate::models::{
    content_len_ok, name_len_ok, opt_string_view, Calligraphy, Posting, MAX_CONTENT_CHARS,
    MAX_NAME_CHARS,
};
use crate::ratelimit::{
    spec_permit, spec_step, OpClass, RateLimiter, WindowState, DEFAULT_OPS_PER_WINDOW,
    DEFAULT_WINDOW_SECS,
};
use crate::store::{recent_listing, upserted, CalligraphyRepositoryTrait};

verus! {

/// Rejection reason when a content text is over the length limit.
pub const CONTENT_LEN_MSG: &'static str = "Content must be 50 chars or less";

/// Rejection reason when a display name is over the length limit.
pub const NAME_LEN_MSG: &'static str = "User name must be 20 chars or less";

/// Check the length rules for a write: content first, then display name;
/// the first violation wins.
pub fn validate(user_name: &str, content: &str) -> (r: Result<(), AppError>)
    ensures
        match r {
            Ok(_) => content_len_ok(content@) && name_len_ok(user_name@),
            Err(e) => {
                &&& !(content_len_ok(content@) && name_len_ok(user_name@))
                &&& e matches AppError::Validation(m)
                &&& !content_len_ok(content@) ==> (e matches AppError::Validation(m) && m@
                    == CONTENT_LEN_MSG@)
                &&& content_len_ok(content@) ==> (e matches AppError::Validation(m) && m@
                    == NAME_LEN_MSG@)
            },
        },
{
    if content.unicode_len() > MAX_CONTENT_CHARS {
        return Err(AppError::Validation(CONTENT_LEN_MSG.to_owned()));
    }
    if user_name.unicode_len() > MAX_NAME_CHARS {
        return Err(AppError::Validation(NAME_LEN_MSG.to_owned()));
    }
    Ok(())
}

/// Translate a fetch outcome: absence of a row is a not-found failure, and
/// a storage failure stays a storage failure with its detail kept for the
/// server side only.
pub fn translate_find(found: Result<Option<Calligraphy>, StoreError>) -> (r: Result<
    Calligraphy,
    AppError,
>)
    ensures
        match found {
            Ok(Some(c)) => r matches Ok(rc) && rc == c,
            Ok(None) => r matches Err(AppError::NotFound),
            Err(_) => r matches Err(AppError::Database(_)),
        },
{
    match found {
        Ok(Some(c)) => Ok(c),
        Ok(None) => Err(AppError::NotFound),
        Err(e) => Err(AppError::Database(e)),
    }
}

/// Translate a delete outcome by affected-row count: zero rows means the
/// posting never existed, which is a not-found failure, not a success.
pub fn translate_delete(outcome: Result<u64, StoreError>) -> (r: Result<(), AppError>)
    ensures
        match outcome {
            Ok(n) => if n == 0 {
                r matches Err(AppError::NotFound)
            } else {
                r matches Ok(_)
            },
            Err(_) => r matches Err(AppError::Database(_)),
        },
{
    match outcome {
        Ok(0) => Err(AppError::NotFound),
        Ok(_) => Ok(()),
        Err(e) => Err(AppError::Database(e)),
    }
}

/// Orchestrates one posting operation: throttle check by source address,
/// input validation, then the store call, translating each outcome into a
/// typed result.
pub struct CalligraphyService<R: CalligraphyRepositoryTrait> {
    repository: R,
    limiter: RateLimiter,
}

impl<R: CalligraphyRepositoryTrait> CalligraphyService<R> {
    /// The stored rows, as the repository holds them.
    pub closed spec fn rows(&self) -> Map<u128, Posting> {
        self.repository.rows()
    }

    /// The rate limiter's bucket table.
    pub closed spec fn buckets(&self) -> Map<(u128, OpClass), WindowState> {
        self.limiter.buckets()
    }

    /// The rate limiter's window length, in seconds.
    pub closed spec fn window_len(&self) -> u64 {
        self.limiter.window_len()
    }

    /// The rate limiter's operations-per-window bound.
    pub closed spec fn max_ops(&self) -> u32 {
        self.limiter.max_ops()
    }

    /// Whether an operation of `class` from this source is permitted now.
    /// An absent address is never throttled.
    pub open spec fn op_permitted(
        &self,
        address: Option<u128>,
        class: OpClass,
        now: u64,
    ) -> bool {
        match address {
            Some(a) => spec_permit(
                self.buckets(),
                self.window_len(),
                self.max_ops(),
                a,
                class,
                now,
            ),
            None => true,
        }
    }

    /// The bucket table after the permit check of one operation.
    pub open spec fn buckets_after(
        &self,
        address: Option<u128>,
        class: OpClass,
        now: u64,
    ) -> Map<(u128, OpClass), WindowState> {
        match address {
            Some(a) => spec_step(self.buckets(), self.window_len(), self.max_ops(), a, class, now),
            None => self.buckets(),
        }
    }

    /// A service over `repository` with the default throttling policy.
    pub fn new(repository: R) -> (s: Self)
        ensures
            s.rows() == repository.rows(),
            s.buckets() == Map::<(u128, OpClass), WindowState>::empty(),
            s.window_len() == DEFAULT_WINDOW_SECS,
            s.max_ops() == DEFAULT_OPS_PER_WINDOW,
    {
        CalligraphyService {
            repository,
            limiter: RateLimiter::new(DEFAULT_WINDOW_SECS, DEFAULT_OPS_PER_WINDOW),
        }
    }

    /// Create or replace the caller's posting: throttled by write class when
    /// the source address is known, validated, then stored atomically.
    pub fn upsert(
        &mut self,
        user_id: u128,
        user_name: String,
        content: String,
        address: Option<u128>,
        user_agent: Option<String>,
        accept_language: Option<String>,
        now: u64,
    ) -> (r: Result<Calligraphy, AppError>)
        ensures
            final(self).buckets() == old(self).buckets_after(address, OpClass::Write, now),
            final(self).window_len() == old(self).window_len(),
            final(self).max_ops() == old(self).max_ops(),
            !old(self).op_permitted(address, OpClass::Write, now) ==> (r matches Err(
                AppError::TooManyRequests,
            ) && final(self).rows() == old(self).rows()),
            old(self).op_permitted(address, OpClass::Write, now) && !content_len_ok(content@) ==> (
            r matches Err(AppError::Validation(m)) && m@ == CONTENT_LEN_MSG@ && final(self).rows()
                == old(self).rows()),
            old(self).op_permitted(address, OpClass::Write, now) && content_len_ok(content@)
                && !name_len_ok(user_name@) ==> (r matches Err(AppError::Validation(m)) && m@
                == NAME_LEN_MSG@ && final(self).rows() == old(self).rows()),
            old(self).op_permitted(address, OpClass::Write, now) && content_len_ok(content@)
                && name_len_ok(user_name@) ==> match r {
                Ok(c) => {
                    &&& c@ == upserted(
                        old(self).rows(),
                        user_id,
                        user_name@,
                        content@,
                        address,
                        opt_string_view(user_agent),
                        opt_string_view(accept_language),
                        now,
                    )
                    &&& final(self).rows() == old(self).rows().insert(user_id, c@)
                },
                Err(e) => e matches AppError::Database(_) && final(self).rows() == old(self).rows(),
            },
    {
        if let Some(a) = address {
            let allowed = self.limiter.permit(a, OpClass::Write, now);
            if !allowed {
                return Err(AppError::TooManyRequests);
            }
        }
        match validate(user_name.as_str(), content.as_str()) {
            Ok(_) => {},
            Err(e) => {
                return Err(e);
            },
        }
        match self.repository.create(
            user_id,
            user_name,
            content,
            address,
            user_agent,
            accept_language,
            now,
        ) {
            Ok(c) => Ok(c),
            Err(e) => Err(AppError::Database(e)),
        }
    }

    /// Fetch the caller's posting, throttled by read class; absence of a row
    /// is a not-found failure, never an empty object.
    pub fn get(&mut self, user_id: u128, address: Option<u128>, now: u64) -> (r: Result<
        Calligraphy,
        AppError,
    >)
        ensures
            final(self).rows() == old(self).rows(),
            final(self).buckets() == old(self).buckets_after(address, OpClass::Read, now),
            final(self).window_len() == old(self).window_len(),
            final(self).max_ops() == old(self).max_ops(),
            match r {
                Ok(c) => old(self).op_permitted(address, OpClass::Read, now) && old(self).rows().contains_key(user_id) && c@ == old(self).rows()[user_id],
                Err(e) => match e {
                    AppError::TooManyRequests => !old(self).op_permitted(
                        address,
                        OpClass::Read,
                        now,
                    ),
                    AppError::NotFound => old(self).op_permitted(address, OpClass::Read, now)
                        && !old(self).rows().contains_key(user_id),
                    AppError::Database(_) => old(self).op_permitted(address, OpClass::Read, now),
                    _ => false,
                },
            },
    {
        if let Some(a) = address {
            let allowed = self.limiter.permit(a, OpClass::Read, now);
            if !allowed {
                return Err(AppError::TooManyRequests);
            }
        }
        translate_find(self.repository.find_by_id(user_id))
    }

    /// Fetch all postings, newest first and bounded, throttled by read
    /// class. All postings are visible regardless of author.
    pub fn get_all(&mut self, address: Option<u128>, now: u64) -> (r: Result<
        Vec<Calligraphy>,
        AppError,
    >)
        ensures
            final(self).rows() == old(self).rows(),
            final(self).buckets() == old(self).buckets_after(address, OpClass::Read, now),
            final(self).window_len() == old(self).window_len(),
            final(self).max_ops() == old(self).max_ops(),
            match r {
                Ok(v) => old(self).op_permitted(address, OpClass::Read, now) && recent_listing(
                    old(self).rows(),
                    v@.map_values(|c: Calligraphy| c@),
                ),
                Err(e) => match e {
                    AppError::TooManyRequests => !old(self).op_permitted(
                        address,
                        OpClass::Read,
                        now,
                    ),
                    AppError::Database(_) => old(self).op_permitted(address, OpClass::Read, now),
                    _ => false,
                },
            },
    {
        if let Some(a) = address {
            let allowed = self.limiter.permit(a, OpClass::Read, now);
            if !allowed {
                return Err(AppError::TooManyRequests);
            }
        }
        match self.repository.find_all() {
            Ok(v) => Ok(v),
            Err(e) => Err(AppError::Database(e)),
        }
    }

    /// Delete the caller's posting, throttled by write class; deleting what
    /// never existed is a not-found failure, not a silent success.
    pub fn delete(&mut self, user_id: u128, address: Option<u128>, now: u64) -> (r: Result<
        (),
        AppError,
    >)
        ensures
            final(self).buckets() == old(self).buckets_after(address, OpClass::Write, now),
            final(self).window_len() == old(self).window_len(),
            final(self).max_ops() == old(self).max_ops(),
            match r {
                Ok(_) => old(self).op_permitted(address, OpClass::Write, now) && old(self).rows().contains_key(user_id) && final(self).rows() == old(self).rows().remove(
                    user_id,
                ),
                Err(e) => final(self).rows() == old(self).rows() && match e {
                    AppError::TooManyRequests => !old(self).op_permitted(
                        address,
                        OpClass::Write,
                        now,
                    ),
                    AppError::NotFound => old(self).op_permitted(address, OpClass::Write, now)
                        && !old(self).rows().contains_key(user_id),
                    AppError::Database(_) => old(self).op_permitted(address, OpClass::Write, now),
                    _ => false,
                },
            },
    {
        if let Some(a) = address {
            let allowed = self.limiter.permit(a, OpClass::Write, now);
            if !allowed {
                return Err(AppError::TooManyRequests);
            }
        }
        let outcome = self.repository.delete(user_id);
        proof {
            match outcome {
                Ok(n) => {
                    if n == 0 {
                        assert(old(self).rows().remove(user_id) =~= old(self).rows());
                    }
                },
                Err(_) => {},
            }
        }
        translate_delete(outcome)
    }
}

} // verus!
