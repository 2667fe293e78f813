//! Candidate scanning: pick the first queued job that can run on a project
//! no other running job holds.
use vstd::prelude::*;
use vstd::string::*;

verus! {

/// Result of scanning candidates for a claimable job.
pub struct ScanResult {
    /// Id of the chosen job, if any candidate is claimable.
    pub job_id: Option<i64>,
    /// Project the chosen job will run on (the default project when none is chosen).
    pub effective_project_id: i64,
    /// Candidates passed over before the chosen one (all of them when none is chosen).
    pub skipped: usize,
}

/// The first project of `pool` that is not running, if any.
pub open spec fn first_free(pool: Seq<i64>, running: Seq<i64>) -> Option<i64>
    decreases pool.len(),
{
    if pool.len() == 0 {
        None
    } else if !running.contains(pool[0]) {
        Some(pool[0])
    } else {
        first_free(pool.drop_first(), running)
    }
}

/// A candidate can be claimed: its pinned project is free, or it is not pinned
/// and the default project or some project of the pool is free.
pub open spec fn claimable(
    cand: (i64, Option<i64>),
    running: Seq<i64>,
    default_project_id: i64,
    pool: Seq<i64>,
) -> bool {
    match cand.1 {
        Some(p) => !running.contains(p),
        None => !running.contains(default_project_id) || first_free(pool, running) is Some,
    }
}

/// The project a claimable candidate runs on: its pinned project, else the
/// default project if free, else the first free project of the pool.
pub open spec fn project_for(
    cand: (i64, Option<i64>),
    running: Seq<i64>,
    default_project_id: i64,
    pool: Seq<i64>,
) -> i64 {
    match cand.1 {
        Some(p) => p,
        None => if !running.contains(default_project_id) {
            default_project_id
        } else {
            first_free(pool, running)->0
        },
    }
}

/// `i` is the position of the first claimable candidate.
pub open spec fn is_first_claimable(
    cands: Seq<(i64, Option<i64>)>,
    running: Seq<i64>,
    default_project_id: i64,
    pool: Seq<i64>,
    i: int,
) -> bool {
    &&& 0 <= i < cands.len()
    &&& claimable(cands[i], running, default_project_id, pool)
    &&& forall|j: int| 0 <= j < i ==> !claimable(#[trigger] cands[j], running, default_project_id, pool)
}

/// Is `x` one of the elements of `v`?
pub fn contains_id(v: &[i64], x: i64) -> (r: bool)
    ensures
        r == v@.contains(x),
{
    for i in 0..v.len()
        invariant
            forall|j: int| 0 <= j < i ==> v@[j] != x,
    {
        if v[i] == x {
            return true;
        }
    }
    false
}

/// Is `x` one of the elements of `v`?
pub fn contains_u64(v: &[u64], x: u64) -> (r: bool)
    ensures
        r == v@.contains(x),
{
    for i in 0..v.len()
        invariant
            forall|j: int| 0 <= j < i ==> v@[j] != x,
    {
        if v[i] == x {
            return true;
        }
    }
    false
}

proof fn lemma_first_free_is_free(pool: Seq<i64>, running: Seq<i64>)
    ensures
        first_free(pool, running) matches Some(p) ==> pool.contains(p) && !running.contains(p),
        first_free(pool, running) is None ==> forall|k: int|
            0 <= k < pool.len() ==> running.contains(#[trigger] pool[k]),
    decreases pool.len(),
{
    if pool.len() > 0 && running.contains(pool[0]) {
        lemma_first_free_is_free(pool.drop_first(), running);
        if let Some(p) = first_free(pool, running) {
            let k = choose|k: int| 0 <= k < pool.drop_first().len() && pool.drop_first()[k] == p;
            assert(pool[k + 1] == p);
        } else {
            assert forall|k: int| 0 <= k < pool.len() implies running.contains(#[trigger] pool[k]) by {
                if k > 0 {
                    assert(pool[k] == pool.drop_first()[k - 1]);
                }
            }
        }
    } else if pool.len() > 0 {
        assert(pool[0] == pool[0]);
    }
}

/// The first project of `pool` that is not in `running`.
fn find_free(pool: &[i64], running: &[i64]) -> (r: Option<i64>)
    ensures
        r == first_free(pool@, running@),
{
    let mut k: usize = 0;
    assert(pool@.skip(0) =~= pool@);
    while k < pool.len()
        invariant
            k <= pool.len(),
            first_free(pool@, running@) == first_free(pool@.skip(k as int), running@),
        decreases pool.len() - k,
    {
        assert(pool@.skip(k as int)[0] == pool@[k as int]);
        assert(pool@.skip(k as int).drop_first() =~= pool@.skip(k + 1));
        if !contains_id(running, pool[k]) {
            return Some(pool[k]);
        }
        k = k + 1;
    }
    assert(pool@.skip(k as int).len() == 0);
    None
}

/// Scan candidates (in queue order) and pick the first one that can run on a
/// free project: a pinned candidate needs its own project free; an unpinned
/// one takes the default project if free, else the first free project of
/// `pool`. Every candidate passed over is counted in `skipped`.
pub fn scan_candidates(
    candidates: &[(i64, Option<i64>)],
    running_projects: &[i64],
    default_project_id: i64,
    pool: &[i64],
) -> (r: ScanResult)
    ensures
        r.job_id is Some <==> exists|i: int|
            0 <= i < candidates@.len() && claimable(
                #[trigger] candidates@[i],
                running_projects@,
                default_project_id,
                pool@,
            ),
        r.job_id is Some ==> exists|i: int|
            is_first_claimable(candidates@, running_projects@, default_project_id, pool@, i)
                && r.job_id == Some(candidates@[i].0) && r.effective_project_id == project_for(
                candidates@[i],
                running_projects@,
                default_project_id,
                pool@,
            ) && r.skipped == i,
        r.job_id is None ==> r.effective_project_id == default_project_id && r.skipped
            == candidates@.len(),
        r.job_id is Some ==> !running_projects@.contains(r.effective_project_id),
        r.job_id is Some ==> (r.effective_project_id == default_project_id
            || pool@.contains(r.effective_project_id)
            || exists|i: int| 0 <= i < candidates@.len() && candidates@[i].1 == Some(r.effective_project_id)),
{
    let mut skipped: usize = 0;
    let mut i: usize = 0;
    while i < candidates.len()
        invariant
            i <= candidates.len(),
            skipped == i,
            forall|j: int|
                0 <= j < i ==> !claimable(
                    #[trigger] candidates@[j],
                    running_projects@,
                    default_project_id,
                    pool@,
                ),
        decreases candidates.len() - i,
    {
        let (cid, stored_pid) = candidates[i];
        proof {
            lemma_first_free_is_free(pool@, running_projects@);
        }
        match stored_pid {
            Some(sp) => {
                if !contains_id(running_projects, sp) {
                    assert(is_first_claimable(candidates@, running_projects@, default_project_id, pool@, i as int));
                    return ScanResult { job_id: Some(cid), effective_project_id: sp, skipped };
                }
            },
            None => {
                if !contains_id(running_projects, default_project_id) {
                    assert(is_first_claimable(candidates@, running_projects@, default_project_id, pool@, i as int));
                    return ScanResult {
                        job_id: Some(cid),
                        effective_project_id: default_project_id,
                        skipped,
                    };
                }
                if let Some(alt) = find_free(pool, running_projects) {
                    assert(is_first_claimable(candidates@, running_projects@, default_project_id, pool@, i as int));
                    return ScanResult { job_id: Some(cid), effective_project_id: alt, skipped };
                }
            },
        }
        skipped = skipped + 1;
        i = i + 1;
    }
    ScanResult { job_id: None, effective_project_id: default_project_id, skipped }
}

/// The project a chosen candidate runs on: a pinned candidate runs on its
/// own project; an unpinned one runs on the default project whenever that is
/// free, and only when it is not on the first project of the pool, in pool
/// order, that no running job holds.
pub proof fn law_claim_project(
    cands: Seq<(i64, Option<i64>)>,
    running: Seq<i64>,
    default_project_id: i64,
    pool: Seq<i64>,
    i: int,
)
    requires
        is_first_claimable(cands, running, default_project_id, pool, i),
    ensures
        cands[i].1 matches Some(p) ==> project_for(cands[i], running, default_project_id, pool) == p,
        cands[i].1 is None && !running.contains(default_project_id) ==> project_for(
            cands[i],
            running,
            default_project_id,
            pool,
        ) == default_project_id,
        cands[i].1 is None && running.contains(default_project_id) ==> exists|k: int|
            0 <= k < pool.len() && pool[k] == project_for(cands[i], running, default_project_id, pool)
                && !running.contains(pool[k]) && forall|m: int| 0 <= m < k ==> running.contains(#[trigger] pool[m]),
        !running.contains(project_for(cands[i], running, default_project_id, pool)),
{
    lemma_first_free_first(pool, running);
    lemma_first_free_is_free(pool, running);
}

/// When a candidate can be claimed: a pinned one exactly when no running job
/// holds its project; an unpinned one exactly when the default project or
/// some project of the pool is free.
pub proof fn law_claimable(cand: (i64, Option<i64>), running: Seq<i64>, default_project_id: i64, pool: Seq<i64>)
    ensures
        cand.1 matches Some(p) ==> (claimable(cand, running, default_project_id, pool) <==> !running.contains(p)),
        cand.1 is None ==> (claimable(cand, running, default_project_id, pool) <==> (!running.contains(
            default_project_id,
        ) || exists|k: int| 0 <= k < pool.len() && !running.contains(#[trigger] pool[k]))),
{
    lemma_first_free_is_free(pool, running);
    if cand.1 is None && first_free(pool, running) is Some {
        let p = first_free(pool, running)->0;
        let k = choose|k: int| 0 <= k < pool.len() && pool[k] == p;
        assert(!running.contains(pool[k]));
    }
}

/// `first_free` is the first pool project, in order, that is not running.
proof fn lemma_first_free_first(pool: Seq<i64>, running: Seq<i64>)
    ensures
        first_free(pool, running) matches Some(p) ==> exists|k: int|
            0 <= k < pool.len() && pool[k] == p && forall|m: int| 0 <= m < k ==> running.contains(#[trigger] pool[m]),
    decreases pool.len(),
{
    if pool.len() > 0 {
        if !running.contains(pool[0]) {
            assert(pool[0] == first_free(pool, running)->0);
        } else {
            lemma_first_free_first(pool.drop_first(), running);
            if let Some(p) = first_free(pool, running) {
                let k = choose|k: int| 0 <= k < pool.drop_first().len() && pool.drop_first()[k] == p
                    && forall|m: int| 0 <= m < k ==> running.contains(#[trigger] pool.drop_first()[m]);
                assert(pool[k + 1] == p);
                assert forall|m: int| 0 <= m < k + 1 implies running.contains(#[trigger] pool[m]) by {
                    if m > 0 {
                        assert(pool[m] == pool.drop_first()[m - 1]);
                    }
                }
            }
        }
    }
}

/// The query that lists claimable candidates: the first 20 queued jobs by
/// priority, then id, restricted to names starting with `prefix` when one is given.
pub open spec fn spec_candidate_query(prefix: Option<Seq<char>>) -> Seq<char> {
    match prefix {
        Some(p) => "SELECT id, project_id FROM backtest_queue\n                         WHERE status='queued' AND name LIKE '"@ + p
            + "%'\n                         ORDER BY priority ASC, id ASC\n                         LIMIT 20"@,
        None => "SELECT id, project_id FROM backtest_queue\n                     WHERE status='queued'\n                     ORDER BY priority ASC, id ASC\n                     LIMIT 20"@,
    }
}

/// The query that lists claimable candidates.
pub fn candidate_query(prefix: Option<&str>) -> (q: String)
    ensures
        q@ == spec_candidate_query(match prefix {
            Some(p) => Some(p@),
            None => None,
        }),
{
    match prefix {
        Some(p) => {
            let mut q = String::from_str("SELECT id, project_id FROM backtest_queue\n                         WHERE status='queued' AND name LIKE '");
            q.append(p);
            q.append("%'\n                         ORDER BY priority ASC, id ASC\n                         LIMIT 20");
            q
        },
        None => String::from_str("SELECT id, project_id FROM backtest_queue\n                     WHERE status='queued'\n                     ORDER BY priority ASC, id ASC\n                     LIMIT 20"),
    }
}

/// The `LIKE` pattern for job names that start with `prefix`.
pub fn name_prefix_pattern(prefix: &str) -> (p: String)
    ensures
        p@ == prefix@ + "%"@,
{
    String::from_str(prefix).concat("%")
}

} // verus!
