//! Pending downloads, ordered small-first, and the per-provider download slots.
use crate::text::{chars_of, chars_of_string, eq, lt_chars, lemma_seq_lt_transitive, lemma_seq_lt_irreflexive, seq_lt};
use crate::update::heuristics::{is_large_download, is_large_spec};
use crate::update::types::UpdateDownloadJob;
use std::collections::VecDeque;
use vstd::multiset::Multiset;
use vstd::prelude::*;

verus! {

/// The order key of a pending download: small before large, fewer bytes first
/// (unknown sizes last), first attempts before retries, then by provider.
pub open spec fn job_key(j: UpdateDownloadJob) -> (int, int, int, Seq<char>) {
    (
        if is_large_spec(j.estimated_download_bytes) { 1 } else { 0 },
        match j.estimated_download_bytes {
            Some(b) => b as int,
            None => u64::MAX as int,
        },
        if j.retry_without_segmented_downloads { 1 } else { 0 },
        j.provider@,
    )
}

/// Lexicographic order of order keys.
pub open spec fn key_lt(a: (int, int, int, Seq<char>), b: (int, int, int, Seq<char>)) -> bool {
    a.0 < b.0 || (a.0 == b.0 && (a.1 < b.1 || (a.1 == b.1 && (a.2 < b.2 || (a.2 == b.2 && seq_lt(a.3, b.3))))))
}

proof fn lemma_key_lt_transitive(a: (int, int, int, Seq<char>), b: (int, int, int, Seq<char>), c: (int, int, int, Seq<char>))
    requires
        key_lt(a, b),
        key_lt(b, c),
    ensures
        key_lt(a, c),
{
    if a.0 == b.0 && b.0 == c.0 && a.1 == b.1 && b.1 == c.1 && a.2 == b.2 && b.2 == c.2 {
        lemma_seq_lt_transitive(a.3, b.3, c.3);
    }
}

/// No job in `q` comes after a job with a greater key.
pub open spec fn queue_sorted(q: Seq<UpdateDownloadJob>) -> bool {
    forall|i: int, j: int| 0 <= i < j < q.len() ==> !key_lt(job_key(#[trigger] q[j]), job_key(#[trigger] q[i]))
}

/// `p` is the first position in `q` whose key is greater than `k`.
pub open spec fn first_greater_at(q: Seq<UpdateDownloadJob>, k: (int, int, int, Seq<char>), p: int) -> bool {
    0 <= p < q.len() && key_lt(k, job_key(q[p])) && forall|j: int| 0 <= j < p ==> !key_lt(k, job_key(#[trigger] q[j]))
}

/// Where a job with key `k` goes: before the first job with a greater key, else last.
pub open spec fn insert_pos(q: Seq<UpdateDownloadJob>, k: (int, int, int, Seq<char>)) -> int {
    if exists|p: int| first_greater_at(q, k, p) {
        choose|p: int| first_greater_at(q, k, p)
    } else {
        q.len() as int
    }
}

/// `q` with `job` inserted at its place in the order.
pub open spec fn sorted_insert(q: Seq<UpdateDownloadJob>, job: UpdateDownloadJob) -> Seq<UpdateDownloadJob> {
    q.insert(insert_pos(q, job_key(job)), job)
}

/// Inserting a job at its place keeps a sorted queue sorted.
pub proof fn law_sorted_insert_keeps_order(q: Seq<UpdateDownloadJob>, job: UpdateDownloadJob)
    requires
        queue_sorted(q),
    ensures
        queue_sorted(sorted_insert(q, job)),
        sorted_insert(q, job).len() == q.len() + 1,
        sorted_insert(q, job).to_multiset() == q.to_multiset().insert(job),
{
    let k = job_key(job);
    let p = insert_pos(q, k);
    let r = q.insert(p, job);
    if exists|p: int| first_greater_at(q, k, p) {
        assert(first_greater_at(q, k, p));
    } else {
        assert forall|j: int| 0 <= j < q.len() implies !key_lt(k, job_key(#[trigger] q[j])) by {
            if key_lt(k, job_key(q[j])) {
                lemma_first_greater_exists(q, k, j);
            }
        }
    }
    assert forall|i: int, j: int| 0 <= i < j < r.len() implies !key_lt(job_key(#[trigger] r[j]), job_key(#[trigger] r[i])) by {
        if j < p {
            assert(r[i] == q[i] && r[j] == q[j]);
        } else if j == p {
            assert(r[i] == q[i]);
        } else if i < p {
            assert(r[i] == q[i] && r[j] == q[j - 1]);
        } else if i == p {
            assert(r[j] == q[j - 1]);
            assert(key_lt(k, job_key(q[p])));
            if key_lt(job_key(q[j - 1]), k) {
                lemma_key_lt_transitive(job_key(q[j - 1]), k, job_key(q[p]));
                if j - 1 > p {
                    assert(!key_lt(job_key(q[j - 1]), job_key(q[p])));
                } else {
                    lemma_seq_lt_irreflexive(job_key(q[p]).3);
                }
            }
        } else {
            assert(r[i] == q[i - 1] && r[j] == q[j - 1]);
        }
    }
    assert(0 <= p <= q.len());
    vstd::seq_lib::to_multiset_insert(q, p, job);
}

/// A job with a greater key than `k` means a first such job exists.
proof fn lemma_first_greater_exists(q: Seq<UpdateDownloadJob>, k: (int, int, int, Seq<char>), j: int)
    requires
        0 <= j < q.len(),
        key_lt(k, job_key(q[j])),
    ensures
        exists|p: int| first_greater_at(q, k, p),
    decreases j,
{
    if exists|t: int| 0 <= t < j && key_lt(k, job_key(#[trigger] q[t])) {
        let t = choose|t: int| 0 <= t < j && key_lt(k, job_key(#[trigger] q[t]));
        lemma_first_greater_exists(q, k, t);
    } else {
        assert(first_greater_at(q, k, j));
    }
}

fn job_key_lt(a: &UpdateDownloadJob, b: &UpdateDownloadJob) -> (r: bool)
    ensures
        r == key_lt(job_key(*a), job_key(*b)),
{
    let la: u8 = if is_large_download(a.estimated_download_bytes) { 1 } else { 0 };
    let lb: u8 = if is_large_download(b.estimated_download_bytes) { 1 } else { 0 };
    if la != lb {
        return la < lb;
    }
    let sa = match a.estimated_download_bytes {
        Some(x) => x,
        None => u64::MAX,
    };
    let sb = match b.estimated_download_bytes {
        Some(x) => x,
        None => u64::MAX,
    };
    if sa != sb {
        return sa < sb;
    }
    let ra: u8 = if a.retry_without_segmented_downloads { 1 } else { 0 };
    let rb: u8 = if b.retry_without_segmented_downloads { 1 } else { 0 };
    if ra != rb {
        return ra < rb;
    }
    lt_chars(&chars_of_string(&a.provider), &chars_of_string(&b.provider))
}

/// Inserts `job` before the first queued job with a greater order key.
fn insert_download_job_sorted(queue: &mut VecDeque<UpdateDownloadJob>, job: UpdateDownloadJob)
    ensures
        final(queue)@ == sorted_insert(old(queue)@, job),
{
    let mut i: usize = 0;
    while i < queue.len()
        invariant
            i <= queue@.len(),
            queue@ == old(queue)@,
            forall|j: int| 0 <= j < i ==> !key_lt(job_key(job), job_key(#[trigger] queue@[j])),
        decreases queue@.len() - i,
    {
        if job_key_lt(&job, &queue[i]) {
            proof {
                let q = queue@;
                let k = job_key(job);
                assert(first_greater_at(q, k, i as int));
                let c = choose|c: int| first_greater_at(q, k, c);
                assert(c == i) by {
                    if c < i {
                        assert(!key_lt(k, job_key(q[c])));
                    }
                    if i < c {
                        assert(!key_lt(k, job_key(q[i as int])));
                    }
                }
            }
            queue.insert(i, job);
            return;
        }
        i = i + 1;
    }
    proof {
        assert(!exists|c: int| first_greater_at(queue@, job_key(job), c));
    }
    queue.insert(i, job);
}

/// The queues of pending downloads: normal ones, and large ones that fewer workers take.
pub struct DownloadQueues {
    pub(crate) normal: VecDeque<UpdateDownloadJob>,
    pub(crate) large: VecDeque<UpdateDownloadJob>,
}

impl DownloadQueues {
    /// The normal queue's jobs, in order.
    pub closed spec fn normal_jobs(&self) -> Seq<UpdateDownloadJob> {
        self.normal@
    }

    /// The large queue's jobs, in order.
    pub closed spec fn large_jobs(&self) -> Seq<UpdateDownloadJob> {
        self.large@
    }

    /// Well-formed: the normal queue is in key order.
    pub open spec fn wf(&self) -> bool {
        queue_sorted(self.normal_jobs())
    }

    /// Two empty queues.
    pub fn new() -> (r: Self)
        ensures
            r.normal_jobs() == Seq::<UpdateDownloadJob>::empty(),
            r.large_jobs() == Seq::<UpdateDownloadJob>::empty(),
            r.wf(),
    {
        DownloadQueues { normal: VecDeque::new(), large: VecDeque::new() }
    }

    /// No job is waiting.
    pub fn is_empty(&self) -> (r: bool)
        ensures
            r == (self.normal_jobs().len() == 0 && self.large_jobs().len() == 0),
    {
        self.normal.len() == 0 && self.large.len() == 0
    }

    /// The number of waiting jobs.
    pub fn len(&self) -> (r: usize)
        requires
            self.normal_jobs().len() + self.large_jobs().len() <= usize::MAX,
        ensures
            r == self.normal_jobs().len() + self.large_jobs().len(),
    {
        self.normal.len() + self.large.len()
    }

    /// Queues `job`: a retry without segmented downloads goes to the back of the
    /// large queue; otherwise the job takes its place by key in the large or the
    /// normal queue, as its size says.
    pub fn push(&mut self, job: UpdateDownloadJob)
        ensures
            job.retry_without_segmented_downloads ==> final(self).large_jobs() == old(self).large_jobs().push(job)
                && final(self).normal_jobs() == old(self).normal_jobs(),
            !job.retry_without_segmented_downloads && is_large_spec(job.estimated_download_bytes) ==>
                final(self).large_jobs() == sorted_insert(old(self).large_jobs(), job)
                && final(self).normal_jobs() == old(self).normal_jobs(),
            !job.retry_without_segmented_downloads && !is_large_spec(job.estimated_download_bytes) ==>
                final(self).normal_jobs() == sorted_insert(old(self).normal_jobs(), job)
                && final(self).large_jobs() == old(self).large_jobs(),
            old(self).wf() ==> final(self).wf(),
    {
        if job.retry_without_segmented_downloads {
            self.large.push_back(job);
            return;
        }
        if is_large_download(job.estimated_download_bytes) {
            insert_download_job_sorted(&mut self.large, job);
        } else {
            proof {
                if queue_sorted(self.normal@) {
                    law_sorted_insert_keeps_order(self.normal@, job);
                }
            }
            insert_download_job_sorted(&mut self.normal, job);
        }
    }

    /// The next job: the front of the normal queue, else, when large downloads are
    /// allowed, the front of the large queue.
    pub fn pop_next(&mut self, allow_large: bool) -> (r: Option<UpdateDownloadJob>)
        ensures
            old(self).normal_jobs().len() > 0 ==> r == Some(old(self).normal_jobs()[0])
                && final(self).normal_jobs() == old(self).normal_jobs().drop_first()
                && final(self).large_jobs() == old(self).large_jobs(),
            old(self).normal_jobs().len() == 0 && allow_large && old(self).large_jobs().len() > 0 ==>
                r == Some(old(self).large_jobs()[0])
                && final(self).large_jobs() == old(self).large_jobs().drop_first()
                && final(self).normal_jobs() == old(self).normal_jobs(),
            old(self).normal_jobs().len() == 0 && (!allow_large || old(self).large_jobs().len() == 0) ==>
                r is None && final(self).normal_jobs() == old(self).normal_jobs()
                && final(self).large_jobs() == old(self).large_jobs(),
            old(self).wf() ==> final(self).wf(),
    {
        let ghost old_normal = self.normal@;
        match self.normal.pop_front() {
            Some(job) => {
                assert(self.normal@ =~= old_normal.drop_first());
                proof {
                    assert forall|i: int, j: int| 0 <= i < j < self.normal@.len() && queue_sorted(old_normal)
                        implies !key_lt(job_key(#[trigger] self.normal@[j]), job_key(#[trigger] self.normal@[i])) by {
                        assert(self.normal@[i] == old_normal[i + 1] && self.normal@[j] == old_normal[j + 1]);
                    }
                }
                return Some(job);
            },
            None => {},
        }
        if allow_large {
            let ghost old_large = self.large@;
            let r = self.large.pop_front();
            assert(r is Some ==> self.large@ =~= old_large.drop_first());
            return r;
        }
        None
    }
}

// ---------------------------------------------------------------------------
// Provider slots
// ---------------------------------------------------------------------------

/// How many downloads may run at once from one provider.
pub open spec fn provider_limit_spec(provider: Seq<char>) -> nat {
    if provider == "github"@ { 3 } else { 2 }
}

/// The number of active downloads recorded for `provider`, zero when absent.
pub open spec fn count_in(entries: Seq<(Seq<char>, usize)>, provider: Seq<char>) -> nat {
    if exists|i: int| 0 <= i < entries.len() && (#[trigger] entries[i]).0 == provider {
        let i = choose|i: int| 0 <= i < entries.len() && (#[trigger] entries[i]).0 == provider;
        entries[i].1 as nat
    } else {
        0
    }
}

/// The active downloads per provider, as a map from provider to count.
pub open spec fn counts_map(entries: Seq<(Seq<char>, usize)>) -> Map<Seq<char>, nat> {
    Map::new(|p: Seq<char>| count_in(entries, p) > 0, |p: Seq<char>| count_in(entries, p))
}

/// The per-provider counts after one more slot of `p` is taken.
pub open spec fn acquired_map(m: Map<Seq<char>, nat>, p: Seq<char>) -> Map<Seq<char>, nat> {
    m.insert(p, m.get(p).unwrap_or(0) + 1)
}

/// The per-provider counts after a slot of `p` is given back: one less, and the
/// provider forgotten when that was its last.
pub open spec fn released_map(m: Map<Seq<char>, nat>, p: Seq<char>) -> Map<Seq<char>, nat> {
    if m.get(p).unwrap_or(0) > 1 {
        m.insert(p, (m[p] - 1) as nat)
    } else {
        m.remove(p)
    }
}

/// Counts slots in use, overall and per provider.
pub struct ProviderDownloadScheduler {
    active_global: usize,
    active_by_provider: Vec<(String, usize)>,
}

impl ProviderDownloadScheduler {
    /// The provider entries, each name by its characters.
    pub closed spec fn entries(&self) -> Seq<(Seq<char>, usize)> {
        self.active_by_provider@.map_values(|e: (String, usize)| (e.0@, e.1))
    }

    /// Slots in use overall.
    pub closed spec fn active_global(&self) -> nat {
        self.active_global as nat
    }

    /// Slots in use per provider; a provider without any is absent.
    pub open spec fn active_by_provider(&self) -> Map<Seq<char>, nat> {
        counts_map(self.entries())
    }

    /// Well-formed: each provider has at most one entry, and every entry counts at least one.
    pub open spec fn wf(&self) -> bool {
        let e = self.entries();
        &&& forall|i: int, j: int| 0 <= i < j < e.len() ==> (#[trigger] e[i]).0 != (#[trigger] e[j]).0
        &&& forall|i: int| 0 <= i < e.len() ==> (#[trigger] e[i]).1 >= 1
    }

    /// No slot in use.
    pub fn new() -> (r: Self)
        ensures
            r.wf(),
            r.active_global() == 0,
            r.active_by_provider() == Map::<Seq<char>, nat>::empty(),
    {
        let r = ProviderDownloadScheduler { active_global: 0, active_by_provider: Vec::new() };
        assert(r.entries() =~= Seq::<(Seq<char>, usize)>::empty());
        assert(r.active_by_provider() =~= Map::<Seq<char>, nat>::empty());
        r
    }

    fn provider_limit(provider: &str) -> (r: usize)
        ensures
            r == provider_limit_spec(provider@),
    {
        if eq(&chars_of(provider), &chars_of("github")) {
            proof {
                reveal_strlit("github");
            }
            3
        } else {
            2
        }
    }

    fn position(&self, provider: &str) -> (r: Option<usize>)
        requires
            self.wf(),
        ensures
            match r {
                Some(i) => i < self.entries().len() && self.entries()[i as int].0 == provider@
                    && count_in(self.entries(), provider@) == self.entries()[i as int].1,
                None => count_in(self.entries(), provider@) == 0
                    && forall|i: int| 0 <= i < self.entries().len() ==> (#[trigger] self.entries()[i]).0 != provider@,
            },
    {
        let p = chars_of(provider);
        let mut i: usize = 0;
        while i < self.active_by_provider.len()
            invariant
                self.wf(),
                i <= self.entries().len(),
                self.entries().len() == self.active_by_provider@.len(),
                p@ == provider@,
                forall|j: int| 0 <= j < i ==> (#[trigger] self.entries()[j]).0 != provider@,
            decreases self.active_by_provider@.len() - i,
        {
            assert(self.entries()[i as int] == (self.active_by_provider@[i as int].0@, self.active_by_provider@[i as int].1));
            if eq(&chars_of_string(&self.active_by_provider[i].0), &p) {
                proof {
                    let e = self.entries();
                    let k = choose|k: int| 0 <= k < e.len() && (#[trigger] e[k]).0 == provider@;
                    if k != i {
                        if k < i {
                            assert(e[k].0 != provider@);
                        } else {
                            assert(e[i as int].0 != e[k].0);
                        }
                    }
                }
                return Some(i);
            }
            i = i + 1;
        }
        None
    }

    /// Takes a slot for `provider` when fewer than `global_limit` are in use overall and
    /// the provider is under its own limit (3 for GitHub, 2 for others).
    pub fn try_acquire(&mut self, provider: &str, global_limit: usize) -> (r: bool)
        requires
            old(self).wf(),
        ensures
            final(self).wf(),
            r == (old(self).active_global() < global_limit
                && old(self).active_by_provider().get(provider@).unwrap_or(0) < provider_limit_spec(provider@)),
            r ==> final(self).active_global() == old(self).active_global() + 1
                && final(self).active_by_provider() == acquired_map(old(self).active_by_provider(), provider@),
            !r ==> final(self).active_global() == old(self).active_global()
                && final(self).active_by_provider() == old(self).active_by_provider(),
    {
        let ghost before = self.active_by_provider();
        proof {
            lemma_counts_get(self.entries(), provider@);
        }
        if self.active_global >= global_limit {
            return false;
        }
        let limit = Self::provider_limit(provider);
        let pos = self.position(provider);
        match pos {
            Some(i) => {
                let c = self.active_by_provider[i].1;
                if c >= limit {
                    return false;
                }
                let ghost old_entries = self.entries();
                self.active_global = self.active_global + 1;
                let name = self.active_by_provider[i].0.clone();
                self.active_by_provider.set(i, (name, c + 1));
                proof {
                    let e = self.entries();
                    assert(e =~= old_entries.update(i as int, (provider@, (c + 1) as usize)));
                    lemma_counts_update(old_entries, i as int, (c + 1) as usize);
                }
            },
            None => {
                if 0 >= limit {
                    return false;
                }
                let ghost old_entries = self.entries();
                self.active_global = self.active_global + 1;
                self.active_by_provider.push((String::from_str(provider), 1));
                proof {
                    let e = self.entries();
                    assert(e =~= old_entries.push((provider@, 1usize)));
                    lemma_counts_push(old_entries, provider@);
                }
            },
        }
        true
    }

    /// Gives back a slot of `provider`; the overall count never drops below zero, and a
    /// provider whose last slot is returned is forgotten.
    pub fn release(&mut self, provider: &str)
        requires
            old(self).wf(),
        ensures
            final(self).wf(),
            final(self).active_global() == if old(self).active_global() > 0 { old(self).active_global() - 1 } else { 0 },
            final(self).active_by_provider() == released_map(old(self).active_by_provider(), provider@),
    {
        proof {
            lemma_counts_get(self.entries(), provider@);
        }
        if self.active_global > 0 {
            self.active_global = self.active_global - 1;
        }
        let ghost old_entries = self.entries();
        match self.position(provider) {
            Some(i) => {
                let c = self.active_by_provider[i].1;
                if c > 1 {
                    let name = self.active_by_provider[i].0.clone();
                    self.active_by_provider.set(i, (name, c - 1));
                    proof {
                        assert(self.entries() =~= old_entries.update(i as int, (provider@, (c - 1) as usize)));
                        lemma_counts_update(old_entries, i as int, (c - 1) as usize);
                    }
                } else {
                    self.active_by_provider.remove(i);
                    proof {
                        assert(self.entries() =~= old_entries.remove(i as int));
                        lemma_counts_remove(old_entries, i as int);
                    }
                }
            },
            None => {
                proof {
                    assert(old_entries.len() == 0 || true);
                    assert(counts_map(old_entries).remove(provider@) =~= counts_map(old_entries));
                }
            },
        }
    }
}

/// Giving back a slot right after taking it restores the scheduler's counts: the
/// overall count and every provider's count are as before.
pub proof fn law_release_undoes_acquire(s: ProviderDownloadScheduler, p: Seq<char>)
    requires
        s.wf(),
    ensures
        released_map(acquired_map(s.active_by_provider(), p), p) == s.active_by_provider(),
        (s.active_global() + 1) - 1 == s.active_global(),
{
    let m = s.active_by_provider();
    let a = acquired_map(m, p);
    if m.dom().contains(p) {
        assert(m[p] >= 1);
        assert(released_map(a, p) =~= m);
    } else {
        assert(released_map(a, p) =~= m);
    }
}

/// Every provider is within its own limit (3 for GitHub, 2 for others).
pub open spec fn within_provider_limits(m: Map<Seq<char>, nat>) -> bool {
    forall|q: Seq<char>| #[trigger] m.dom().contains(q) ==> m[q] <= provider_limit_spec(q)
}

/// Slots are only handed out below a provider's limit, so taking and giving back
/// slots never puts a provider over its limit.
pub proof fn law_provider_limits_hold(m: Map<Seq<char>, nat>, p: Seq<char>)
    requires
        within_provider_limits(m),
    ensures
        m.get(p).unwrap_or(0) < provider_limit_spec(p) ==> within_provider_limits(acquired_map(m, p)),
        within_provider_limits(released_map(m, p)),
{
    let a = acquired_map(m, p);
    assert forall|q: Seq<char>| m.get(p).unwrap_or(0) < provider_limit_spec(p) && #[trigger] a.dom().contains(q)
        implies a[q] <= provider_limit_spec(q) by {
        if q != p {
            assert(m.dom().contains(q));
        }
    }
    let r = released_map(m, p);
    assert forall|q: Seq<char>| #[trigger] r.dom().contains(q) implies r[q] <= provider_limit_spec(q) by {
        assert(m.dom().contains(q));
    }
}

/// The map's value for `p` is the entry's count.
proof fn lemma_counts_get(e: Seq<(Seq<char>, usize)>, p: Seq<char>)
    ensures
        counts_map(e).get(p).unwrap_or(0) == count_in(e, p),
        counts_map(e).dom().contains(p) <==> count_in(e, p) > 0,
{
}

/// Changing the count of entry `i` (to at least one) changes the map at its provider.
proof fn lemma_counts_update(e: Seq<(Seq<char>, usize)>, i: int, c: usize)
    requires
        0 <= i < e.len(),
        c >= 1,
        forall|a: int, b: int| 0 <= a < b < e.len() ==> (#[trigger] e[a]).0 != (#[trigger] e[b]).0,
        forall|a: int| 0 <= a < e.len() ==> (#[trigger] e[a]).1 >= 1,
    ensures
        counts_map(e.update(i, (e[i].0, c))) == counts_map(e).insert(e[i].0, c as nat),
{
    let f = e.update(i, (e[i].0, c));
    assert forall|p: Seq<char>| #[trigger] count_in(f, p) == if p == e[i].0 { c as nat } else { count_in(e, p) } by {
        if p == e[i].0 {
            assert(f[i].0 == p);
            let k = choose|k: int| 0 <= k < f.len() && (#[trigger] f[k]).0 == p;
            if k != i {
                if k < i {
                    assert(e[k].0 != e[i].0);
                } else {
                    assert(e[i].0 != e[k].0);
                }
            }
        } else {
            if exists|k: int| 0 <= k < e.len() && (#[trigger] e[k]).0 == p {
                let k = choose|k: int| 0 <= k < e.len() && (#[trigger] e[k]).0 == p;
                assert(f[k].0 == p);
                let k2 = choose|k2: int| 0 <= k2 < f.len() && (#[trigger] f[k2]).0 == p;
                if k2 != k {
                    if k2 < k {
                        assert(e[k2].0 != e[k].0);
                    } else {
                        assert(e[k].0 != e[k2].0);
                    }
                }
            } else {
                assert forall|k: int| 0 <= k < f.len() implies (#[trigger] f[k]).0 != p by {
                    if k != i {
                        assert(f[k] == e[k]);
                    }
                }
            }
        }
    }
    assert(counts_map(f) =~= counts_map(e).insert(e[i].0, c as nat));
}

/// Appending a first entry for `p` with count one adds `p` to the map.
proof fn lemma_counts_push(e: Seq<(Seq<char>, usize)>, p: Seq<char>)
    requires
        forall|a: int, b: int| 0 <= a < b < e.len() ==> (#[trigger] e[a]).0 != (#[trigger] e[b]).0,
        forall|k: int| 0 <= k < e.len() ==> (#[trigger] e[k]).0 != p,
    ensures
        counts_map(e.push((p, 1usize))) == counts_map(e).insert(p, 1),
{
    let f = e.push((p, 1usize));
    assert forall|q: Seq<char>| #[trigger] count_in(f, q) == if q == p { 1 } else { count_in(e, q) } by {
        if q == p {
            assert(f[e.len() as int].0 == p);
            let k = choose|k: int| 0 <= k < f.len() && (#[trigger] f[k]).0 == p;
            if k < e.len() {
                assert(f[k] == e[k]);
            }
        } else {
            if exists|k: int| 0 <= k < e.len() && (#[trigger] e[k]).0 == q {
                let k = choose|k: int| 0 <= k < e.len() && (#[trigger] e[k]).0 == q;
                assert(f[k] == e[k]);
                let k2 = choose|k2: int| 0 <= k2 < f.len() && (#[trigger] f[k2]).0 == q;
                assert(k2 < e.len());
                assert(f[k2] == e[k2]);
                if k2 != k {
                    if k2 < k {
                        assert(e[k2].0 != e[k].0);
                    } else {
                        assert(e[k].0 != e[k2].0);
                    }
                }
            } else {
                assert forall|k: int| 0 <= k < f.len() implies (#[trigger] f[k]).0 != q by {
                    if k < e.len() {
                        assert(f[k] == e[k]);
                    }
                }
            }
        }
    }
    assert(counts_map(f) =~= counts_map(e).insert(p, 1));
}

/// Removing the entry `i` removes its provider from the map.
proof fn lemma_counts_remove(e: Seq<(Seq<char>, usize)>, i: int)
    requires
        0 <= i < e.len(),
        forall|a: int, b: int| 0 <= a < b < e.len() ==> (#[trigger] e[a]).0 != (#[trigger] e[b]).0,
    ensures
        counts_map(e.remove(i)) == counts_map(e).remove(e[i].0),
{
    let f = e.remove(i);
    assert forall|q: Seq<char>| #[trigger] count_in(f, q) == if q == e[i].0 { 0 } else { count_in(e, q) } by {
        if q == e[i].0 {
            assert forall|k: int| 0 <= k < f.len() implies (#[trigger] f[k]).0 != q by {
                if k < i {
                    assert(f[k] == e[k]);
                } else {
                    assert(f[k] == e[k + 1]);
                }
            }
        } else {
            if exists|k: int| 0 <= k < e.len() && (#[trigger] e[k]).0 == q {
                let k = choose|k: int| 0 <= k < e.len() && (#[trigger] e[k]).0 == q;
                assert(k != i);
                let kf = if k < i { k } else { k - 1 };
                assert(f[kf] == e[k]);
                let k2 = choose|k2: int| 0 <= k2 < f.len() && (#[trigger] f[k2]).0 == q;
                let ke = if k2 < i { k2 } else { k2 + 1 };
                assert(f[k2] == e[ke]);
                if ke != k {
                    if ke < k {
                        assert(e[ke].0 != e[k].0);
                    } else {
                        assert(e[k].0 != e[ke].0);
                    }
                }
            } else {
                assert forall|k: int| 0 <= k < f.len() implies (#[trigger] f[k]).0 != q by {
                    if k < i {
                        assert(f[k] == e[k]);
                    } else {
                        assert(f[k] == e[k + 1]);
                    }
                }
            }
        }
    }
    assert(counts_map(f) =~= counts_map(e).remove(e[i].0));
}

/// The per-provider counts after one more slot was taken for each provider in turn.
pub open spec fn acquired_all(m: Map<Seq<char>, nat>, ps: Seq<Seq<char>>) -> Map<Seq<char>, nat>
    decreases ps.len(),
{
    if ps.len() == 0 {
        m
    } else {
        acquired_map(acquired_all(m, ps.drop_last()), ps.last())
    }
}

/// The providers of some jobs, in order.
pub open spec fn providers_of(jobs: Seq<UpdateDownloadJob>) -> Seq<Seq<char>> {
    jobs.map_values(|j: UpdateDownloadJob| j.provider@)
}

/// All the jobs of both queues.
pub open spec fn queued(q: DownloadQueues) -> Multiset<UpdateDownloadJob> {
    q.normal_jobs().to_multiset().add(q.large_jobs().to_multiset())
}

/// A slot for provider `p` is free: fewer than `limit` downloads run overall and the
/// provider is under its own limit.
pub open spec fn slot_free(counts: Map<Seq<char>, nat>, global: nat, p: Seq<char>, limit: nat) -> bool {
    global < limit && counts.get(p).unwrap_or(0) < provider_limit_spec(p)
}

/// The pass over the normal queue: while fewer than `limit` downloads run (`current`),
/// the front job starts when its provider has a free slot and otherwise goes to the
/// back; `rotations` jobs in a row went back, and a full round (`round` of them) ends
/// the pass. The result: the queue left, the jobs started, the per-provider counts and
/// the overall count.
pub open spec fn normal_pass(
    normal: Seq<UpdateDownloadJob>,
    started: Seq<UpdateDownloadJob>,
    counts: Map<Seq<char>, nat>,
    global: nat,
    current: nat,
    limit: nat,
    rotations: nat,
    round: nat,
) -> (Seq<UpdateDownloadJob>, Seq<UpdateDownloadJob>, Map<Seq<char>, nat>, nat)
    decreases normal.len(), round - rotations,
{
    if current < limit && normal.len() > 0 && rotations < round {
        let job = normal[0];
        if slot_free(counts, global, job.provider@, limit) {
            normal_pass(normal.drop_first(), started.push(job), acquired_map(counts, job.provider@), global + 1, current + 1, limit, 0, round)
        } else {
            normal_pass(normal.drop_first().push(job), started, counts, global, current, limit, rotations + 1, round)
        }
    } else {
        (normal, started, counts, global)
    }
}

/// After the normal pass: when nothing runs and the normal queue is empty, the front
/// large job starts if its provider has a free slot. The result: the jobs started, the
/// large queue left, the per-provider counts and the overall count.
pub open spec fn large_step(
    normal: Seq<UpdateDownloadJob>,
    large: Seq<UpdateDownloadJob>,
    started: Seq<UpdateDownloadJob>,
    counts: Map<Seq<char>, nat>,
    global: nat,
    current: nat,
    limit: nat,
) -> (Seq<UpdateDownloadJob>, Seq<UpdateDownloadJob>, Map<Seq<char>, nat>, nat) {
    if current == 0 && normal.len() == 0 && large.len() > 0 && slot_free(counts, global, large[0].provider@, limit) {
        (started.push(large[0]), large.drop_first(), acquired_map(counts, large[0].provider@), global + 1)
    } else {
        (started, large, counts, global)
    }
}

impl DownloadQueues {
    /// Takes the jobs that can start now, given `active` running downloads. Normal jobs
    /// are taken from the front while fewer than `download_limit` run and their
    /// provider has a free slot; a job whose provider is busy goes to the back, and a
    /// full round of such jobs ends the pass. When nothing runs and no normal job is
    /// left, one large job may start; a large job that cannot start stays in front.
    /// Every job taken has a slot in `scheduler`; no job is lost or added.
    pub fn take_startable(&mut self, active: usize, download_limit: usize, scheduler: &mut ProviderDownloadScheduler) -> (started: Vec<UpdateDownloadJob>)
        requires
            old(scheduler).wf(),
        ensures
            final(scheduler).wf(),
            started@.to_multiset().add(queued(*final(self))) == queued(*old(self)),
            final(scheduler).active_global() == old(scheduler).active_global() + started@.len(),
            final(scheduler).active_by_provider() == acquired_all(old(scheduler).active_by_provider(), providers_of(started@)),
            started@.len() > 0 ==> active + started@.len() <= download_limit,
            active >= download_limit ==> started@.len() == 0,
            ({
                let (n, s, c, g) = normal_pass(
                    old(self).normal_jobs(),
                    seq![],
                    old(scheduler).active_by_provider(),
                    old(scheduler).active_global(),
                    active as nat,
                    download_limit as nat,
                    0,
                    old(self).normal_jobs().len(),
                );
                let (s2, l2, c2, g2) = large_step(n, old(self).large_jobs(), s, c, g, (active + s.len()) as nat, download_limit as nat);
                &&& started@ == s2
                &&& final(self).normal_jobs() == n
                &&& final(self).large_jobs() == l2
                &&& final(scheduler).active_by_provider() == c2
                &&& final(scheduler).active_global() == g2
            }),
    {
        broadcast use vstd::multiset::group_multiset_axioms, vstd::seq_lib::to_multiset_build, vstd::seq_lib::to_multiset_remove;

        let mut started: Vec<UpdateDownloadJob> = Vec::new();
        proof {
            vstd::seq_lib::to_multiset_len(started@);
            vstd::multiset::lemma_multiset_empty_len(started@.to_multiset());
            assert(started@.to_multiset() =~= Multiset::<UpdateDownloadJob>::empty());
            assert(providers_of(started@) =~= Seq::<Seq<char>>::empty());
            assert(Multiset::<UpdateDownloadJob>::empty().add(queued(*self)) =~= queued(*self));
        }
        if self.normal.len() == 0 && self.large.len() == 0 {
            return started;
        }
        let ghost spec_result = normal_pass(
            self.normal@,
            seq![],
            scheduler.active_by_provider(),
            scheduler.active_global(),
            active as nat,
            download_limit as nat,
            0,
            self.normal@.len(),
        );
        let mut current = active;
        let mut rotations: usize = 0;
        let pending_len = self.normal.len();
        while current < download_limit && self.normal.len() > 0 && rotations < pending_len
            invariant
                scheduler.wf(),
                current == active + started@.len(),
                started@.len() > 0 ==> current <= download_limit,
                started@.to_multiset().add(queued(*self)) == queued(*old(self)),
                scheduler.active_global() == old(scheduler).active_global() + started@.len(),
                scheduler.active_by_provider() == acquired_all(old(scheduler).active_by_provider(), providers_of(started@)),
                rotations <= pending_len,
                self.large@ == old(self).large@,
                normal_pass(self.normal@, started@, scheduler.active_by_provider(), scheduler.active_global(),
                    current as nat, download_limit as nat, rotations as nat, pending_len as nat) == spec_result,
            decreases self.normal@.len(), pending_len - rotations,
        {
            let ghost before_normal = self.normal@;
            let ghost before_started = started@;
            let ghost before_counts = scheduler.active_by_provider();
            let ghost before_global = scheduler.active_global();
            proof {
                assert(before_normal.len() > 0);
            }
            let job = self.normal.pop_front().unwrap();
            proof {
                assert(self.normal@.insert(0, job) =~= before_normal);
                vstd::seq_lib::to_multiset_insert(self.normal@, 0, job);
                assert(before_normal.to_multiset() =~= self.normal@.to_multiset().insert(job));
                assert(before_normal[0] == job);
                assert(before_normal.drop_first() =~= self.normal@);
            }
            if scheduler.try_acquire(job.provider.as_str(), download_limit) {
                started.push(job);
                current = current + 1;
                rotations = 0;
                proof {
                    assert(started@ == before_started.push(job));
                    vstd::seq_lib::to_multiset_build(before_started, job);
                    assert(started@.to_multiset() =~= before_started.to_multiset().insert(job));
                    assert(providers_of(started@).drop_last() =~= providers_of(before_started));
                    assert(started@.to_multiset().add(queued(*self)) =~= before_started.to_multiset().add(
                        before_normal.to_multiset().add(self.large@.to_multiset()),
                    ));
                }
            } else {
                let ghost rest = self.normal@;
                self.normal.push_back(job);
                rotations = rotations + 1;
                proof {
                    vstd::seq_lib::to_multiset_build(rest, job);
                    assert(self.normal@.to_multiset() =~= before_normal.to_multiset());
                    assert(self.normal@ =~= before_normal.drop_first().push(job));
                }
            }
        }
        assert(spec_result == (self.normal@, started@, scheduler.active_by_provider(), scheduler.active_global()));
        if current == 0 && self.normal.len() == 0 {
            let ghost before_large = self.large@;
            let ghost before_started = started@;
            match self.large.pop_front() {
                Some(job) => {
                    proof {
                        assert(self.large@.insert(0, job) =~= before_large);
                        vstd::seq_lib::to_multiset_insert(self.large@, 0, job);
                        assert(before_large.to_multiset() =~= self.large@.to_multiset().insert(job));
                        assert(before_large[0] == job);
                        assert(before_large.drop_first() =~= self.large@);
                    }
                    if scheduler.try_acquire(job.provider.as_str(), download_limit) {
                        started.push(job);
                        proof {
                            assert(started@ == before_started.push(job));
                            vstd::seq_lib::to_multiset_build(before_started, job);
                            assert(started@.to_multiset() =~= before_started.to_multiset().insert(job));
                            assert(providers_of(started@).drop_last() =~= providers_of(before_started));
                            assert(started@.to_multiset().add(queued(*self)) =~= before_started.to_multiset().add(
                                self.normal@.to_multiset().add(before_large.to_multiset()),
                            ));
                        }
                    } else {
                        self.large.push_front(job);
                        proof {
                            assert(self.large@ =~= before_large);
                        }
                    }
                },
                None => {},
            }
        }
        started
    }
}

} // verus!
