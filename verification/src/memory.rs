use vstd::prelude::*;

use crate::error::StoreError;
use crate::models::{Calligraphy, Posting};
use crate::store::{CalligraphyRepositoryTrait, LIST_LIMIT};

verus! {

spec fn has_id(s: Seq<Calligraphy>, id: u128) -> bool {
    exists|i: int| 0 <= i < s.len() && s[i].user_id == id
}

spec fn idx_of(s: Seq<Calligraphy>, id: u128) -> int {
    choose|i: int| 0 <= i < s.len() && s[i].user_id == id
}

spec fn posting_map(s: Seq<Calligraphy>) -> Map<u128, Posting> {
    Map::new(|id: u128| has_id(s, id), |id: u128| s[idx_of(s, id)]@)
}

spec fn unique_ids(s: Seq<Calligraphy>) -> bool {
    forall|i: int, j: int| 0 <= i < j < s.len() ==> s[i].user_id != s[j].user_id
}

spec fn sorted_newest_first(s: Seq<Calligraphy>) -> bool {
    forall|i: int, j: int| 0 <= i < j < s.len() ==> s[i].created_at >= s[j].created_at
}

proof fn lemma_pmap_index(s: Seq<Calligraphy>, i: int)
    requires
        unique_ids(s),
        0 <= i < s.len(),
    ensures
        posting_map(s).contains_key(s[i].user_id),
        posting_map(s)[s[i].user_id] == s[i]@,
{
    let id = s[i].user_id;
    assert(has_id(s, id));
    let j = idx_of(s, id);
    assert(0 <= j < s.len() && s[j].user_id == id);
    if j != i {
        assert(s[i].user_id != s[j].user_id);
    }
}

proof fn lemma_pmap_absent(s: Seq<Calligraphy>, id: u128)
    requires
        forall|i: int| 0 <= i < s.len() ==> s[i].user_id != id,
    ensures
        !posting_map(s).contains_key(id),
{
}

proof fn lemma_pmap_update(s: Seq<Calligraphy>, i: int, c: Calligraphy)
    requires
        unique_ids(s),
        0 <= i < s.len(),
        c.user_id == s[i].user_id,
    ensures
        unique_ids(s.update(i, c)),
        posting_map(s.update(i, c)) =~= posting_map(s).insert(c.user_id, c@),
{
    let t = s.update(i, c);
    assert(forall|p: int| 0 <= p < s.len() ==> t[p].user_id == s[p].user_id);
    assert forall|id: u128| has_id(t, id) == has_id(s, id) by {
        if has_id(t, id) {
            let p = choose|p: int| 0 <= p < t.len() && t[p].user_id == id;
            assert(s[p].user_id == id);
        }
        if has_id(s, id) {
            let p = choose|p: int| 0 <= p < s.len() && s[p].user_id == id;
            assert(t[p].user_id == id);
        }
    }
    assert forall|id: u128| #[trigger] posting_map(t).contains_key(id) implies posting_map(t)[id]
        == posting_map(s).insert(c.user_id, c@)[id] by {
        let p = idx_of(t, id);
        assert(0 <= p < t.len() && t[p].user_id == id);
        if id == c.user_id {
            if p != i {
                assert(t[p].user_id != t[i].user_id);
            }
            assert(posting_map(t)[id] == c@);
        } else {
            assert(p != i);
            assert(t[p] == s[p]);
            lemma_pmap_index(s, p);
            lemma_pmap_index(t, p);
        }
    }
}

proof fn lemma_pmap_insert(s: Seq<Calligraphy>, i: int, c: Calligraphy)
    requires
        unique_ids(s),
        0 <= i <= s.len(),
        forall|j: int| 0 <= j < s.len() ==> s[j].user_id != c.user_id,
    ensures
        unique_ids(s.insert(i, c)),
        posting_map(s.insert(i, c)) =~= posting_map(s).insert(c.user_id, c@),
{
    let t = s.insert(i, c);
    assert(t.len() == s.len() + 1);
    assert(t[i] == c);
    assert(forall|p: int| 0 <= p < i ==> t[p] == s[p]);
    assert(forall|p: int| i < p < t.len() ==> t[p] == s[p - 1]);
    assert forall|p: int, q: int| 0 <= p < q < t.len() implies t[p].user_id != t[q].user_id by {
        if p == i {
            assert(t[q] == s[q - 1]);
        } else if q == i {
            assert(t[p] == s[p]);
        } else {
            let sp = if p < i { p } else { p - 1 };
            let sq = if q < i { q } else { q - 1 };
            assert(t[p] == s[sp] && t[q] == s[sq]);
            assert(sp < sq);
        }
    }
    assert forall|id: u128| has_id(t, id) == (has_id(s, id) || id == c.user_id) by {
        if has_id(t, id) {
            let p = choose|p: int| 0 <= p < t.len() && t[p].user_id == id;
            if p != i {
                let sp = if p < i { p } else { p - 1 };
                assert(s[sp].user_id == id);
            }
        }
        if has_id(s, id) {
            let p = choose|p: int| 0 <= p < s.len() && s[p].user_id == id;
            let tp = if p < i { p } else { p + 1 };
            assert(t[tp].user_id == id);
        }
    }
    assert forall|id: u128| #[trigger] posting_map(t).contains_key(id) implies posting_map(t)[id]
        == posting_map(s).insert(c.user_id, c@)[id] by {
        let p = idx_of(t, id);
        assert(0 <= p < t.len() && t[p].user_id == id);
        if id == c.user_id {
            if p != i {
                assert(t[p].user_id != t[i].user_id);
            }
            assert(posting_map(t)[id] == c@);
        } else {
            assert(p != i);
            let sp = if p < i { p } else { p - 1 };
            lemma_pmap_index(s, sp);
            lemma_pmap_index(t, p);
            assert(t[p] == s[sp]);
        }
    }
}

proof fn lemma_pmap_remove(s: Seq<Calligraphy>, i: int)
    requires
        unique_ids(s),
        0 <= i < s.len(),
    ensures
        unique_ids(s.remove(i)),
        sorted_newest_first(s) ==> sorted_newest_first(s.remove(i)),
        posting_map(s.remove(i)) =~= posting_map(s).remove(s[i].user_id),
{
    let t = s.remove(i);
    assert(t.len() == s.len() - 1);
    assert(forall|p: int| 0 <= p < i ==> t[p] == s[p]);
    assert(forall|p: int| i <= p < t.len() ==> t[p] == s[p + 1]);
    assert forall|p: int, q: int| 0 <= p < q < t.len() implies t[p].user_id != t[q].user_id && (
    sorted_newest_first(s) ==> t[p].created_at >= t[q].created_at) by {
        let sp = if p < i { p } else { p + 1 };
        let sq = if q < i { q } else { q + 1 };
        assert(t[p] == s[sp] && t[q] == s[sq]);
        assert(sp < sq);
    }
    assert forall|id: u128| has_id(t, id) == (has_id(s, id) && id != s[i].user_id) by {
        if has_id(t, id) {
            let p = choose|p: int| 0 <= p < t.len() && t[p].user_id == id;
            let sp = if p < i { p } else { p + 1 };
            assert(s[sp].user_id == id);
            assert(sp != i);
        }
        if has_id(s, id) && id != s[i].user_id {
            let p = choose|p: int| 0 <= p < s.len() && s[p].user_id == id;
            assert(p != i);
            let tp = if p < i { p } else { p - 1 };
            assert(t[tp].user_id == id);
        }
    }
    assert forall|id: u128| #[trigger] posting_map(t).contains_key(id) implies posting_map(t)[id]
        == posting_map(s).remove(s[i].user_id)[id] by {
        let p = idx_of(t, id);
        assert(0 <= p < t.len() && t[p].user_id == id);
        let sp = if p < i { p } else { p + 1 };
        lemma_pmap_index(s, sp);
        lemma_pmap_index(t, p);
        assert(t[p] == s[sp]);
    }
}

fn copy_opt_string(s: &Option<String>) -> (r: Option<String>)
    ensures
        r == *s,
{
    match s {
        Some(v) => Some(v.clone()),
        None => None,
    }
}

fn copy_record(c: &Calligraphy) -> (r: Calligraphy)
    ensures
        r == *c,
{
    Calligraphy {
        user_id: c.user_id,
        user_name: c.user_name.clone(),
        content: c.content.clone(),
        ip_address: c.ip_address,
        user_agent: copy_opt_string(&c.user_agent),
        accept_language: copy_opt_string(&c.accept_language),
        created_at: c.created_at,
        updated_at: c.updated_at,
    }
}

fn find_pos(entries: &Vec<Calligraphy>, user_id: u128) -> (r: Option<usize>)
    ensures
        match r {
            Some(i) => i < entries@.len() && entries@[i as int].user_id == user_id,
            None => forall|j: int| 0 <= j < entries@.len() ==> entries@[j].user_id != user_id,
        },
{
    let n = entries.len();
    let mut i: usize = 0;
    while i < n
        invariant
            n == entries@.len(),
            i <= n,
            forall|j: int| 0 <= j < i ==> entries@[j].user_id != user_id,
        decreases n - i,
    {
        if entries[i].user_id == user_id {
            return Some(i);
        }
        i = i + 1;
    }
    None
}

/// An in-memory store gateway: the capability interface realized on a plain
/// vector, kept ordered newest `created_at` first with one row per identity.
/// It never fails.
pub struct MemRepository {
    entries: Vec<Calligraphy>,
}

impl MemRepository {
    #[verifier::type_invariant]
    spec fn wf(&self) -> bool {
        unique_ids(self.entries@) && sorted_newest_first(self.entries@)
    }

    /// An empty store.
    pub fn new() -> (r: MemRepository)
        ensures
            r.rows() == Map::<u128, Posting>::empty(),
    {
        let r = MemRepository { entries: Vec::new() };
        proof {
            assert(r.rows() =~= Map::<u128, Posting>::empty());
        }
        r
    }
}

impl CalligraphyRepositoryTrait for MemRepository {
    closed spec fn rows(&self) -> Map<u128, Posting> {
        posting_map(self.entries@)
    }

    fn create(
        &mut self,
        user_id: u128,
        user_name: String,
        content: String,
        ip_address: Option<u128>,
        user_agent: Option<String>,
        accept_language: Option<String>,
        now: u64,
    ) -> (r: Result<Calligraphy, StoreError>)
        ensures
            r is Ok,
    {
        proof {
            use_type_invariant(&*self);
        }
        let ghost s0 = self.entries@;
        let mut entries: Vec<Calligraphy> = Vec::new();
        std::mem::swap(&mut entries, &mut self.entries);
        let pos = find_pos(&entries, user_id);
        let stored: Calligraphy;
        match pos {
            Some(i) => {
                let created_at = entries[i].created_at;
                stored = Calligraphy {
                    user_id,
                    user_name,
                    content,
                    ip_address,
                    user_agent,
                    accept_language,
                    created_at,
                    updated_at: now,
                };
                let copy = copy_record(&stored);
                proof {
                    lemma_pmap_index(s0, i as int);
                    lemma_pmap_update(s0, i as int, stored);
                    assert forall|p: int, q: int|
                        0 <= p < q < s0.update(i as int, stored).len() implies s0.update(
                        i as int,
                        stored,
                    )[p].created_at >= s0.update(i as int, stored)[q].created_at by {
                        assert(s0.update(i as int, stored)[p].created_at == s0[p].created_at);
                        assert(s0.update(i as int, stored)[q].created_at == s0[q].created_at);
                    }
                }
                entries.set(i, stored);
                self.entries = entries;
                Ok(copy)
            },
            None => {
                // Insert position: after every newer row, so the order stays
                // newest first.
                let n = entries.len();
                let mut p: usize = 0;
                while p < n && entries[p].created_at > now
                    invariant
                        n == entries@.len(),
                        p <= n,
                        forall|j: int| 0 <= j < p ==> entries@[j].created_at > now,
                    decreases n - p,
                {
                    p = p + 1;
                }
                stored = Calligraphy {
                    user_id,
                    user_name,
                    content,
                    ip_address,
                    user_agent,
                    accept_language,
                    created_at: now,
                    updated_at: now,
                };
                let copy = copy_record(&stored);
                proof {
                    lemma_pmap_absent(s0, user_id);
                    lemma_pmap_insert(s0, p as int, stored);
                    let t = s0.insert(p as int, stored);
                    assert forall|a: int, b: int| 0 <= a < b < t.len() implies t[a].created_at
                        >= t[b].created_at by {
                        if a == p {
                            assert(t[b] == s0[b - 1]);
                            assert(b - 1 >= p);
                            if b - 1 > p {
                                assert(s0[p as int].created_at >= s0[b - 1].created_at);
                            }
                        } else if b == p {
                            assert(t[a] == s0[a]);
                        } else {
                            let sa = if a < p { a } else { a - 1 };
                            let sb = if b < p { b } else { b - 1 };
                            assert(t[a] == s0[sa] && t[b] == s0[sb]);
                            assert(sa < sb);
                        }
                    }
                }
                entries.insert(p, stored);
                self.entries = entries;
                Ok(copy)
            },
        }
    }

    fn find_by_id(&self, user_id: u128) -> (r: Result<Option<Calligraphy>, StoreError>)
        ensures
            r is Ok,
    {
        proof {
            use_type_invariant(&*self);
        }
        match find_pos(&self.entries, user_id) {
            Some(i) => {
                proof {
                    lemma_pmap_index(self.entries@, i as int);
                }
                Ok(Some(copy_record(&self.entries[i])))
            },
            None => {
                proof {
                    lemma_pmap_absent(self.entries@, user_id);
                }
                Ok(None)
            },
        }
    }

    fn find_all(&self) -> (r: Result<Vec<Calligraphy>, StoreError>)
        ensures
            r is Ok,
    {
        proof {
            use_type_invariant(&*self);
        }
        let ghost s0 = self.entries@;
        let n = self.entries.len();
        let take = if n < LIST_LIMIT {
            n
        } else {
            LIST_LIMIT
        };
        let mut out: Vec<Calligraphy> = Vec::new();
        let mut i: usize = 0;
        while i < take
            invariant
                take <= n,
                n == s0.len(),
                self.entries@ == s0,
                i <= take,
                out@.len() == i,
                forall|j: int| 0 <= j < i ==> #[trigger] out@[j] == s0[j],
            decreases take - i,
        {
            out.push(copy_record(&self.entries[i]));
            i = i + 1;
        }
        proof {
            let v = out@.map_values(|c: Calligraphy| c@);
            assert(v.len() == out@.len());
            assert forall|j: int| 0 <= j < v.len() implies v[j] == s0[j]@ by {
                assert(out@[j] == s0[j]);
            }
            assert forall|j: int| 0 <= j < v.len() implies posting_map(s0).contains_key(
                #[trigger] v[j].user_id,
            ) && posting_map(s0)[v[j].user_id] == v[j] by {
                lemma_pmap_index(s0, j);
                assert(v[j] == s0[j]@);
            }
            assert forall|id: u128| posting_map(s0).contains_key(id) implies (exists|j: int|
                0 <= j < v.len() && v[j].user_id == id) || (v.len() == LIST_LIMIT && forall|j: int|
                0 <= j < v.len() ==> #[trigger] v[j].created_at >= posting_map(s0)[id].created_at) by {
                let q = idx_of(s0, id);
                assert(0 <= q < s0.len() && s0[q].user_id == id);
                lemma_pmap_index(s0, q);
                if q < v.len() {
                    assert(v[q].user_id == id);
                } else {
                    assert(v.len() == LIST_LIMIT);
                    assert forall|j: int| 0 <= j < v.len() implies #[trigger] v[j].created_at
                        >= posting_map(s0)[id].created_at by {
                        assert(s0[j].created_at >= s0[q].created_at);
                        assert(v[j] == s0[j]@);
                    }
                }
            }
        }
        Ok(out)
    }

    fn delete(&mut self, user_id: u128) -> (r: Result<u64, StoreError>)
        ensures
            r is Ok,
    {
        proof {
            use_type_invariant(&*self);
        }
        let ghost s0 = self.entries@;
        let mut entries: Vec<Calligraphy> = Vec::new();
        std::mem::swap(&mut entries, &mut self.entries);
        match find_pos(&entries, user_id) {
            Some(i) => {
                proof {
                    lemma_pmap_index(s0, i as int);
                    lemma_pmap_remove(s0, i as int);
                }
                entries.remove(i);
                self.entries = entries;
                Ok(1)
            },
            None => {
                proof {
                    lemma_pmap_absent(s0, user_id);
                    assert(posting_map(s0) =~= posting_map(s0).remove(user_id));
                }
                self.entries = entries;
                Ok(0)
            },
        }
    }
}

} // verus!
