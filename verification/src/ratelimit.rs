use vstd::prelude::*;

verus! {

/// Default window length of the throttling policy, in seconds.
pub const DEFAULT_WINDOW_SECS: u64 = 60;

/// Default number of operations permitted per window and key.
pub const DEFAULT_OPS_PER_WINDOW: u32 = 1;

/// The two independently throttled categories of access.
#[derive(Clone, Copy, Debug, PartialEq, Eq, Structural)]
pub enum OpClass {
    Read,
    Write,
}

/// The state of one rate-limit bucket: how many operations the current
/// window has seen, and when that window started.
pub struct WindowState {
    pub count: u32,
    pub window_start: u64,
}

/// One stored bucket, keyed by source address and operation class.
#[derive(Clone, Copy)]
struct Bucket {
    addr: u128,
    class: OpClass,
    count: u32,
    window_start: u64,
}

spec fn bucket_key(b: Bucket) -> (u128, OpClass) {
    (b.addr, b.class)
}

spec fn bucket_state(b: Bucket) -> WindowState {
    WindowState { count: b.count, window_start: b.window_start }
}

spec fn unique_keys(s: Seq<Bucket>) -> bool {
    forall|i: int, j: int|
        0 <= i < j < s.len() ==> bucket_key(s[i]) != bucket_key(s[j])
}

spec fn has_key(s: Seq<Bucket>, k: (u128, OpClass)) -> bool {
    exists|i: int| 0 <= i < s.len() && bucket_key(s[i]) == k
}

spec fn idx_of(s: Seq<Bucket>, k: (u128, OpClass)) -> int {
    choose|i: int| 0 <= i < s.len() && bucket_key(s[i]) == k
}

spec fn entries_map(s: Seq<Bucket>) -> Map<(u128, OpClass), WindowState> {
    Map::new(|k: (u128, OpClass)| has_key(s, k), |k: (u128, OpClass)| bucket_state(s[idx_of(s, k)]))
}

/// Whether a bucket's window is still running at instant `now`.
pub open spec fn window_active(ws: WindowState, window_secs: u64, now: u64) -> bool {
    now < ws.window_start + window_secs
}

/// The permit decision: a key with no bucket, or whose window has expired,
/// starts a fresh window and is permitted; inside an active window the first
/// `limit` operations are permitted and the rest are rejected.
pub open spec fn spec_permit(
    m: Map<(u128, OpClass), WindowState>,
    window_secs: u64,
    limit: u32,
    addr: u128,
    class: OpClass,
    now: u64,
) -> bool {
    if m.contains_key((addr, class)) && window_active(m[(addr, class)], window_secs, now) {
        m[(addr, class)].count < limit
    } else {
        true
    }
}

/// How the bucket table changes on a permit check: a fresh window starts
/// with count 1; an active window's count grows by one when permitted and
/// stays at its cap when rejected.
pub open spec fn spec_step(
    m: Map<(u128, OpClass), WindowState>,
    window_secs: u64,
    limit: u32,
    addr: u128,
    class: OpClass,
    now: u64,
) -> Map<(u128, OpClass), WindowState> {
    let k = (addr, class);
    if m.contains_key(k) && window_active(m[k], window_secs, now) {
        if m[k].count < limit {
            m.insert(k, WindowState { count: (m[k].count + 1) as u32, window_start: m[k].window_start })
        } else {
            m
        }
    } else {
        m.insert(k, WindowState { count: 1, window_start: now })
    }
}

/// Fixed-window throttle over `(source address, operation class)` keys:
/// at most `max_ops` operations per key within any one window.
pub struct RateLimiter {
    window_secs: u64,
    limit: u32,
    entries: Vec<Bucket>,
}

proof fn lemma_map_index(s: Seq<Bucket>, i: int)
    requires
        unique_keys(s),
        0 <= i < s.len(),
    ensures
        entries_map(s).contains_key(bucket_key(s[i])),
        entries_map(s)[bucket_key(s[i])] == bucket_state(s[i]),
{
    let k = bucket_key(s[i]);
    assert(has_key(s, k));
    let j = idx_of(s, k);
    assert(0 <= j < s.len() && bucket_key(s[j]) == k);
    if j != i {
        assert(bucket_key(s[i]) != bucket_key(s[j]));
    }
}

proof fn lemma_map_absent(s: Seq<Bucket>, k: (u128, OpClass))
    requires
        forall|i: int| 0 <= i < s.len() ==> bucket_key(s[i]) != k,
    ensures
        !entries_map(s).contains_key(k),
{
}

proof fn lemma_map_update(s: Seq<Bucket>, i: int, b: Bucket)
    requires
        unique_keys(s),
        0 <= i < s.len(),
        bucket_key(b) == bucket_key(s[i]),
    ensures
        unique_keys(s.update(i, b)),
        entries_map(s.update(i, b)) =~= entries_map(s).insert(bucket_key(b), bucket_state(b)),
{
    let t = s.update(i, b);
    assert(forall|p: int| 0 <= p < s.len() ==> bucket_key(t[p]) == bucket_key(s[p]));
    assert forall|k: (u128, OpClass)| has_key(t, k) == has_key(s, k) by {
        if has_key(t, k) {
            let p = choose|p: int| 0 <= p < t.len() && bucket_key(t[p]) == k;
            assert(bucket_key(s[p]) == k);
        }
        if has_key(s, k) {
            let p = choose|p: int| 0 <= p < s.len() && bucket_key(s[p]) == k;
            assert(bucket_key(t[p]) == k);
        }
    }
    assert forall|k: (u128, OpClass)| #[trigger] entries_map(t).contains_key(k) implies
        entries_map(t)[k] == entries_map(s).insert(bucket_key(b), bucket_state(b))[k] by {
        let p = idx_of(t, k);
        assert(0 <= p < t.len() && bucket_key(t[p]) == k);
        if k == bucket_key(b) {
            if p != i {
                assert(bucket_key(t[p]) != bucket_key(t[i]));
            }
            assert(entries_map(t)[k] == bucket_state(b));
        } else {
            assert(p != i);
            assert(t[p] == s[p]);
            lemma_map_index(s, p);
            lemma_map_index(t, p);
        }
    }
}

proof fn lemma_map_push(s: Seq<Bucket>, b: Bucket)
    requires
        unique_keys(s),
        forall|i: int| 0 <= i < s.len() ==> bucket_key(s[i]) != bucket_key(b),
    ensures
        unique_keys(s.push(b)),
        entries_map(s.push(b)) =~= entries_map(s).insert(bucket_key(b), bucket_state(b)),
{
    let t = s.push(b);
    assert(forall|p: int| 0 <= p < s.len() ==> t[p] == s[p]);
    assert(bucket_key(t[s.len() as int]) == bucket_key(b));
    assert forall|k: (u128, OpClass)| has_key(t, k) == (has_key(s, k) || k == bucket_key(b)) by {
        if has_key(t, k) {
            let p = choose|p: int| 0 <= p < t.len() && bucket_key(t[p]) == k;
            if p < s.len() {
                assert(bucket_key(s[p]) == k);
            }
        }
        if has_key(s, k) {
            let p = choose|p: int| 0 <= p < s.len() && bucket_key(s[p]) == k;
            assert(bucket_key(t[p]) == k);
        }
    }
    assert forall|k: (u128, OpClass)| #[trigger] entries_map(t).contains_key(k) implies
        entries_map(t)[k] == entries_map(s).insert(bucket_key(b), bucket_state(b))[k] by {
        let p = idx_of(t, k);
        assert(0 <= p < t.len() && bucket_key(t[p]) == k);
        if k == bucket_key(b) {
            if p < s.len() {
                assert(bucket_key(s[p]) != bucket_key(b));
            }
            assert(entries_map(t)[k] == bucket_state(b));
        } else {
            assert(p < s.len());
            lemma_map_index(s, p);
            lemma_map_index(t, p);
        }
    }
}

impl RateLimiter {
    /// The current bucket table, as a map from key to window state.
    pub closed spec fn buckets(&self) -> Map<(u128, OpClass), WindowState> {
        entries_map(self.entries@)
    }

    /// The length of this limiter's fixed window, in seconds.
    pub closed spec fn window_len(&self) -> u64 {
        self.window_secs
    }

    /// How many operations one key may perform within one window.
    pub closed spec fn max_ops(&self) -> u32 {
        self.limit
    }

    #[verifier::type_invariant]
    closed spec fn wf(&self) -> bool {
        unique_keys(self.entries@) && self.limit >= 1
    }

    /// A limiter with no buckets yet, permitting `max_ops` operations per
    /// `window_secs`-second window for each key.
    pub fn new(window_secs: u64, max_ops: u32) -> (r: RateLimiter)
        requires
            max_ops >= 1,
        ensures
            r.buckets() == Map::<(u128, OpClass), WindowState>::empty(),
            r.window_len() == window_secs,
            r.max_ops() == max_ops,
    {
        let r = RateLimiter { window_secs, limit: max_ops, entries: Vec::new() };
        proof {
            assert(r.buckets() =~= Map::<(u128, OpClass), WindowState>::empty());
        }
        r
    }

    /// Decide whether the operation class `class` from source address `addr`
    /// is permitted at instant `now`, and account for it.
    ///
    /// Permit decisions for one key are totally ordered with respect to the
    /// bucket table this limiter owns: each call reads and writes the table
    /// in one exclusive step.
    pub fn permit(&mut self, addr: u128, class: OpClass, now: u64) -> (permitted: bool)
        ensures
            permitted == spec_permit(
                old(self).buckets(),
                old(self).window_len(),
                old(self).max_ops(),
                addr,
                class,
                now,
            ),
            final(self).buckets() == spec_step(
                old(self).buckets(),
                old(self).window_len(),
                old(self).max_ops(),
                addr,
                class,
                now,
            ),
            final(self).window_len() == old(self).window_len(),
            final(self).max_ops() == old(self).max_ops(),
    {
        proof {
            use_type_invariant(&*self);
        }
        let ghost m0 = self.buckets();
        let mut entries: Vec<Bucket> = Vec::new();
        std::mem::swap(&mut entries, &mut self.entries);
        let ghost s0 = entries@;
        let n = entries.len();
        let mut i: usize = 0;
        while i < n
            invariant
                n == entries@.len(),
                i <= n,
                entries@ == s0,
                unique_keys(s0),
                s0 == old(self).entries@,
                m0 == entries_map(s0),
                self.entries@.len() == 0,
                self.window_secs == old(self).window_secs,
                self.limit == old(self).limit,
                self.limit >= 1,
                forall|j: int| 0 <= j < i ==> bucket_key(s0[j]) != (addr, class),
            decreases n - i,
        {
            let b = entries[i];
            if b.addr == addr && b.class == class {
                proof {
                    lemma_map_index(s0, i as int);
                }
                let active = if now < b.window_start {
                    true
                } else {
                    now - b.window_start < self.window_secs
                };
                let permitted: bool;
                let updated: Bucket;
                if active {
                    if b.count < self.limit {
                        permitted = true;
                        updated = Bucket {
                            addr,
                            class,
                            count: b.count + 1,
                            window_start: b.window_start,
                        };
                    } else {
                        permitted = false;
                        updated = b;
                    }
                } else {
                    permitted = true;
                    updated = Bucket { addr, class, count: 1, window_start: now };
                }
                proof {
                    lemma_map_update(s0, i as int, updated);
                }
                entries.set(i, updated);
                self.entries = entries;
                proof {
                    if !permitted {
                        assert(self.entries@ =~= s0);
                        assert(self.buckets() =~= m0);
                    }
                }
                return permitted;
            }
            proof {
                if bucket_key(s0[i as int]) == (addr, class) {
                    assert(bucket_key(s0[i as int]).0 == (addr, class).0);
                    assert(false);
                }
            }
            i = i + 1;
        }
        proof {
            lemma_map_absent(s0, (addr, class));
            lemma_map_push(s0, Bucket { addr, class, count: 1, window_start: now });
        }
        entries.push(Bucket { addr, class, count: 1, window_start: now });
        self.entries = entries;
        true
    }
}

/// Law: with a policy of one write per window, two consecutive writes from
/// the same address within one window see the first permitted and the second
/// rejected, while a write from a different, so far unseen, address is
/// permitted whenever it comes.
pub proof fn lemma_rate_limit_boundary(
    m: Map<(u128, OpClass), WindowState>,
    window_secs: u64,
    addr1: u128,
    addr2: u128,
    now1: u64,
    now2: u64,
    now3: u64,
)
    requires
        !m.contains_key((addr1, OpClass::Write)),
        !m.contains_key((addr2, OpClass::Write)),
        addr1 != addr2,
        now1 <= now2 < now1 + window_secs,
    ensures
        spec_permit(m, window_secs, 1, addr1, OpClass::Write, now1),
        !spec_permit(
            spec_step(m, window_secs, 1, addr1, OpClass::Write, now1),
            window_secs,
            1,
            addr1,
            OpClass::Write,
            now2,
        ),
        spec_permit(
            spec_step(m, window_secs, 1, addr1, OpClass::Write, now1),
            window_secs,
            1,
            addr2,
            OpClass::Write,
            now3,
        ),
{
}

/// Law: accounting never drives a bucket's count past the policy's bound:
/// when every bucket is within the bound, it still is after any permit
/// check, because a rejected operation does not increment its bucket.
pub proof fn lemma_counts_stay_capped(
    m: Map<(u128, OpClass), WindowState>,
    window_secs: u64,
    limit: u32,
    addr: u128,
    class: OpClass,
    now: u64,
)
    requires
        limit >= 1,
        forall|k: (u128, OpClass)| m.contains_key(k) ==> #[trigger] m[k].count <= limit,
    ensures
        forall|k: (u128, OpClass)|
            spec_step(m, window_secs, limit, addr, class, now).contains_key(k) ==> #[trigger] spec_step(
                m,
                window_secs,
                limit,
                addr,
                class,
                now,
            )[k].count <= limit,
{
}

/// Law: the two operation classes of one address are throttled
/// independently: accounting an operation of one class changes neither the
/// decision nor the bucket of the other class.
pub proof fn lemma_classes_independent(
    m: Map<(u128, OpClass), WindowState>,
    window_secs: u64,
    limit: u32,
    addr: u128,
    class1: OpClass,
    class2: OpClass,
    now1: u64,
    now2: u64,
)
    requires
        class1 != class2,
    ensures
        spec_permit(
            spec_step(m, window_secs, limit, addr, class1, now1),
            window_secs,
            limit,
            addr,
            class2,
            now2,
        ) == spec_permit(m, window_secs, limit, addr, class2, now2),
{
}

} // verus!
