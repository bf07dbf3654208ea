use vstd::prelude::*;

use crate::error::StoreError;
use crate::models::{opt_string_view, Calligraphy, Posting};

verus! {

/// How many postings a listing returns at most.
pub const LIST_LIMIT: usize = 100;

/// The record an atomic create-or-replace leaves for `user_id`: the new
/// name, content and diagnostics, `updated_at` set to the write instant, and
/// `created_at` set once on first insert and never altered thereafter.
pub open spec fn upserted(
    rows: Map<u128, Posting>,
    user_id: u128,
    user_name: Seq<char>,
    content: Seq<char>,
    ip_address: Option<u128>,
    user_agent: Option<Seq<char>>,
    accept_language: Option<Seq<char>>,
    now: u64,
) -> Posting {
    Posting {
        user_id,
        user_name,
        content,
        ip_address,
        user_agent,
        accept_language,
        created_at: if rows.contains_key(user_id) {
            rows[user_id].created_at
        } else {
            now
        },
        updated_at: now,
    }
}

/// What a recent-first listing owes: at most `LIST_LIMIT` items, each a
/// stored row, no identity twice, ordered by creation time newest first, and
/// no stored row is left out unless the listing is full and everything shown
/// was created no earlier than the row left out.
pub open spec fn recent_listing(rows: Map<u128, Posting>, s: Seq<Posting>) -> bool {
    &&& s.len() <= LIST_LIMIT
    &&& forall|i: int|
        0 <= i < s.len() ==> rows.contains_key(#[trigger] s[i].user_id) && rows[s[i].user_id]
            == s[i]
    &&& forall|i: int, j: int|
        0 <= i < j < s.len() ==> s[i].user_id != s[j].user_id && s[i].created_at
            >= s[j].created_at
    &&& forall|id: u128|
        rows.contains_key(id) ==> (exists|i: int| 0 <= i < s.len() && s[i].user_id == id) || (
        s.len() == LIST_LIMIT && forall|i: int|
            0 <= i < s.len() ==> #[trigger] s[i].created_at >= rows[id].created_at)
}

/// Law: two create-or-replace writes by one identity leave exactly one row
/// for it, carrying the second write's name and content; the creation time
/// set by the first write survives the second unchanged, and the update time
/// is strictly newer when the second write happens strictly later.
pub proof fn lemma_upsert_invariant(
    rows: Map<u128, Posting>,
    user_id: u128,
    name1: Seq<char>,
    content1: Seq<char>,
    ip1: Option<u128>,
    ua1: Option<Seq<char>>,
    al1: Option<Seq<char>>,
    now1: u64,
    name2: Seq<char>,
    content2: Seq<char>,
    ip2: Option<u128>,
    ua2: Option<Seq<char>>,
    al2: Option<Seq<char>>,
    now2: u64,
)
    ensures
        ({
            let p1 = upserted(rows, user_id, name1, content1, ip1, ua1, al1, now1);
            let rows1 = rows.insert(user_id, p1);
            let p2 = upserted(rows1, user_id, name2, content2, ip2, ua2, al2, now2);
            let rows2 = rows1.insert(user_id, p2);
            &&& rows2.dom() =~= rows.dom().insert(user_id)
            &&& rows2[user_id] == p2
            &&& p2.user_name == name2
            &&& p2.content == content2
            &&& p2.created_at == p1.created_at
            &&& now2 > now1 ==> p2.updated_at > p1.updated_at
        }),
{
}

/// The capability interface the posting service depends on: a store of at
/// most one posting per identity, with an atomic create-or-replace. Any
/// implementation may fail any call with an opaque storage error, but a
/// failed call must leave the rows unchanged.
pub trait CalligraphyRepositoryTrait: Sized {
    /// The stored rows, one per identity.
    spec fn rows(&self) -> Map<u128, Posting>;

    /// Atomic create-or-replace keyed by `user_id`, stamped with the clock
    /// reading `now`: a second write from the same identity replaces the
    /// first in place, leaving `created_at` unchanged.
    fn create(
        &mut self,
        user_id: u128,
        user_name: String,
        content: String,
        ip_address: Option<u128>,
        user_agent: Option<String>,
        accept_language: Option<String>,
        now: u64,
    ) -> (r: Result<Calligraphy, StoreError>)
        ensures
            match r {
                Ok(c) => {
                    &&& c@ == upserted(
                        old(self).rows(),
                        user_id,
                        user_name@,
                        content@,
                        ip_address,
                        opt_string_view(user_agent),
                        opt_string_view(accept_language),
                        now,
                    )
                    &&& final(self).rows() == old(self).rows().insert(user_id, c@)
                },
                Err(_) => final(self).rows() == old(self).rows(),
            },
    ;

    /// Fetch the posting of one identity; absence of a row is `None`, never
    /// an error.
    fn find_by_id(&self, user_id: u128) -> (r: Result<Option<Calligraphy>, StoreError>)
        ensures
            match r {
                Ok(Some(c)) => self.rows().contains_key(user_id) && c@ == self.rows()[user_id],
                Ok(None) => !self.rows().contains_key(user_id),
                Err(_) => true,
            },
    ;

    /// Fetch all postings, newest `created_at` first, at most `LIST_LIMIT`
    /// of them.
    fn find_all(&self) -> (r: Result<Vec<Calligraphy>, StoreError>)
        ensures
            match r {
                Ok(v) => recent_listing(self.rows(), v@.map_values(|c: Calligraphy| c@)),
                Err(_) => true,
            },
    ;

    /// Delete the posting of one identity; the result counts the rows
    /// affected, 0 or 1.
    fn delete(&mut self, user_id: u128) -> (r: Result<u64, StoreError>)
        ensures
            match r {
                Ok(n) => {
                    &&& n == if old(self).rows().contains_key(user_id) {
                        1u64
                    } else {
                        0u64
                    }
                    &&& final(self).rows() == old(self).rows().remove(user_id)
                },
                Err(_) => final(self).rows() == old(self).rows(),
            },
    ;
}

} // verus!
