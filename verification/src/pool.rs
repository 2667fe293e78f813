//! The warm pool: jobs whose code is pushed and compiled on a locked project,
//! waiting for a backtest slot; and the decisions of the task that fills it.
use vstd::prelude::*;
use vstd::string::*;
use std::collections::HashSet;
use std::collections::VecDeque;

verus! {

broadcast use vstd::std_specs::hash::group_hash_axioms;

/// Shared pool of pre-warmed entries, oldest first.
pub struct WarmPool<E> {
    entries: VecDeque<E>,
    max_entries: usize,
}

impl<E> View for WarmPool<E> {
    type V = Seq<E>;

    open spec fn view(&self) -> Seq<E> {
        self.spec_entries()
    }
}

impl<E> WarmPool<E> {
    /// A pool never holds more than its maximum.
    #[verifier::type_invariant]
    spec fn within_max(self) -> bool {
        self.entries@.len() <= self.max_entries
    }

    /// The entries, oldest first.
    pub closed spec fn spec_entries(&self) -> Seq<E> {
        self.entries@
    }

    /// The most entries the filler keeps ready.
    pub closed spec fn spec_max_entries(&self) -> usize {
        self.max_entries
    }

    /// An empty pool that holds at most `max_entries` ready entries.
    pub fn new(max_entries: usize) -> (p: Self)
        ensures
            p@ == Seq::<E>::empty(),
            p.spec_max_entries() == max_entries,
            p@.len() <= p.spec_max_entries(),
    {
        WarmPool { entries: VecDeque::new(), max_entries }
    }

    /// The most entries the filler keeps ready.
    pub fn max_entries(&self) -> (m: usize)
        ensures
            m == self.spec_max_entries(),
    {
        self.max_entries
    }

    /// Take the oldest entry (first in, first out).
    pub fn take(&mut self) -> (e: Option<E>)
        ensures
            old(self)@.len() == 0 ==> e is None && final(self)@ == old(self)@,
            old(self)@.len() > 0 ==> e == Some(old(self)@[0]) && final(self)@ == old(self)@.drop_first(),
            final(self).spec_max_entries() == old(self).spec_max_entries(),
            final(self)@.len() <= final(self).spec_max_entries(),
    {
        proof {
            use_type_invariant(&*self);
        }
        let mut entries = VecDeque::new();
        std::mem::swap(&mut entries, &mut self.entries);
        let e = entries.pop_front();
        std::mem::swap(&mut entries, &mut self.entries);
        proof {
            if old(self)@.len() > 0 {
                assert(self.entries@ =~= old(self)@.drop_first());
            }
        }
        e
    }

    /// How many entries are ready: never more than the maximum.
    pub fn len(&self) -> (n: usize)
        ensures
            n == self@.len(),
            n <= self.spec_max_entries(),
    {
        proof {
            use_type_invariant(self);
        }
        self.entries.len()
    }

    /// True if the pool holds no entries.
    pub fn is_empty(&self) -> (b: bool)
        ensures
            b == (self@.len() == 0),
    {
        self.entries.len() == 0
    }

    /// Add a warm entry at the back when the pool has room for it; a full
    /// pool is left as it is and the entry is handed back.
    pub fn push(&mut self, entry: E) -> (r: Result<(), E>)
        ensures
            old(self)@.len() < old(self).spec_max_entries() ==> r is Ok && final(self)@ == old(self)@.push(entry),
            old(self)@.len() >= old(self).spec_max_entries() ==> r == Err::<(), E>(entry) && final(self)@ == old(self)@,
            final(self).spec_max_entries() == old(self).spec_max_entries(),
            final(self)@.len() <= final(self).spec_max_entries(),
    {
        proof {
            use_type_invariant(&*self);
        }
        if self.entries.len() >= self.max_entries {
            return Err(entry);
        }
        let mut entries = VecDeque::new();
        std::mem::swap(&mut entries, &mut self.entries);
        entries.push_back(entry);
        std::mem::swap(&mut entries, &mut self.entries);
        Ok(())
    }

    /// How many jobs the filler may warm now: the free places of the pool,
    /// but no more than the projects that are neither locked nor held back
    /// for slots that claim directly.
    pub fn room(&self, num_projects: usize, locked_count: usize, slot_reserve: usize) -> (r: usize)
        ensures
            r == spec_fill_room(num_projects, locked_count, slot_reserve, self@.len() as int, self.spec_max_entries()),
    {
        fill_room(num_projects, locked_count, slot_reserve, self.entries.len(), self.max_entries)
    }
}

/// The filler never finds the pool full: a batch of `room` warmers, where
/// `room` was reckoned from a length the pool has not grown past except by
/// the batch's own earlier pushes, has room for each of its pushes.
pub proof fn law_batch_fits(
    num_projects: usize,
    locked_count: usize,
    slot_reserve: usize,
    pool_len: int,
    max_entries: usize,
    pushed: int,
    len_now: int,
)
    requires
        0 <= pool_len,
        0 <= pushed < spec_fill_room(num_projects, locked_count, slot_reserve, pool_len, max_entries),
        len_now <= pool_len + pushed,
    ensures
        len_now < max_entries,
{
}

/// Entries that go into the pool come out first-in, first-out.
pub proof fn law_pool_fifo<E>(q: Seq<E>, a: E, b: E)
    ensures
        q.push(a).push(b)[0] == if q.len() == 0 { a } else { q[0] },
        q.len() == 0 ==> q.push(a).push(b).drop_first() == seq![b],
{
    if q.len() == 0 {
        assert(q.push(a).push(b).drop_first() =~= seq![b]);
    }
}

/// `a - b`, or 0 when `b > a`.
pub open spec fn sat_sub(a: int, b: int) -> int {
    if a > b {
        a - b
    } else {
        0
    }
}

/// The number of jobs to warm in one batch.
pub open spec fn spec_fill_room(
    num_projects: usize,
    locked_count: usize,
    slot_reserve: usize,
    pool_len: int,
    max_entries: usize,
) -> usize {
    let free_for_warm = sat_sub(sat_sub(num_projects as int, locked_count as int), slot_reserve as int);
    if pool_len >= max_entries || free_for_warm == 0 {
        0
    } else if max_entries - pool_len <= free_for_warm {
        (max_entries - pool_len) as usize
    } else {
        free_for_warm as usize
    }
}

/// The number of jobs to warm in one batch: zero when the pool is full or no
/// project is free beyond the slot reserve; else the free places of the pool,
/// capped by the free projects beyond the reserve.
pub fn fill_room(
    num_projects: usize,
    locked_count: usize,
    slot_reserve: usize,
    pool_len: usize,
    max_entries: usize,
) -> (r: usize)
    ensures
        r == spec_fill_room(num_projects, locked_count, slot_reserve, pool_len as int, max_entries),
{
    let free_total = num_projects.saturating_sub(locked_count);
    let free_for_warm = free_total.saturating_sub(slot_reserve);
    if pool_len >= max_entries || free_for_warm == 0 {
        0
    } else if max_entries - pool_len <= free_for_warm {
        max_entries - pool_len
    } else {
        free_for_warm
    }
}

/// A batch never overfills the pool, never uses the projects held back for
/// slots, and is empty only when the pool is full or no such project is free.
pub proof fn law_fill_room(
    num_projects: usize,
    locked_count: usize,
    slot_reserve: usize,
    pool_len: int,
    max_entries: usize,
)
    requires
        pool_len >= 0,
    ensures
        ({
            let r = spec_fill_room(num_projects, locked_count, slot_reserve, pool_len, max_entries);
            &&& r > 0 ==> pool_len + r <= max_entries
            &&& r > 0 ==> locked_count + r + slot_reserve <= num_projects
            &&& r == 0 <==> (pool_len >= max_entries || locked_count + slot_reserve >= num_projects)
        }),
{
}

/// A batch is as large as both limits allow: when positive, it is the
/// smaller of the pool's free places (`max_entries - pool_len`) and the
/// projects free beyond the reserve (`num_projects - locked_count -
/// slot_reserve`).
pub proof fn law_fill_room_is_min(
    num_projects: usize,
    locked_count: usize,
    slot_reserve: usize,
    pool_len: int,
    max_entries: usize,
)
    requires
        pool_len >= 0,
    ensures
        ({
            let r = spec_fill_room(num_projects, locked_count, slot_reserve, pool_len, max_entries) as int;
            let places = max_entries - pool_len;
            let free = num_projects - locked_count - slot_reserve;
            &&& r > 0 ==> r <= places && r <= free
            &&& r > 0 ==> r == places || r == free
            &&& places > 0 && free > 0 ==> r > 0
        }),
{
}

/// The project a warmer locks: the first project, in the rotation that
/// starts at `counter % len`, that no one holds. `None` when all are held.
pub open spec fn rotation_index(len: int, counter: int, offset: int) -> int {
    (counter % len + offset) % len
}

/// The rotation position `k` holds the first project, from `counter % len`
/// on, that `held` does not hold.
pub open spec fn first_free_at(held: Set<i64>, ids: Seq<i64>, counter: int, k: int) -> bool {
    &&& 0 <= k < ids.len()
    &&& !held.contains(ids[rotation_index(ids.len() as int, counter, k)])
    &&& forall|j: int| 0 <= j < k ==> held.contains(#[trigger] ids[rotation_index(ids.len() as int, counter, j)])
}

/// What locking from `ids` at `counter` does to the held set `held`: it
/// returns the first free project in the rotation and adds it, giving
/// `after`; or, when every project is held, returns `None` and changes nothing.
pub open spec fn lock_step(held: Set<i64>, ids: Seq<i64>, counter: int, r: Option<i64>, after: Set<i64>) -> bool {
    match r {
        Some(p) => (exists|k: int| #[trigger] first_free_at(held, ids, counter, k)
            && ids[rotation_index(ids.len() as int, counter, k)] == p) && after == held.insert(p),
        None => after == held && forall|k: int| 0 <= k < ids.len() ==> held.contains(#[trigger] ids[k]),
    }
}

/// Lock the first free project of `project_ids` in the rotation that starts
/// at `counter`, and return it; `None` (and nothing locked) when every
/// project is held.
pub fn lock_free_project(locked: &mut HashSet<i64>, project_ids: &[i64], counter: usize) -> (r: Option<i64>)
    ensures
        lock_step(old(locked)@, project_ids@, counter as int, r, final(locked)@),
{
    let n = project_ids.len();
    if n == 0 {
        return None;
    }
    let start = counter % n;
    for offset in 0..n
        invariant
            n == project_ids@.len(),
            n > 0,
            start == counter as int % n as int,
            locked@ == old(locked)@,
            forall|j: int| 0 <= j < offset ==> old(locked)@.contains(#[trigger] project_ids@[rotation_index(n as int, counter as int, j)]),
    {
        let idx = add_mod(start, offset, n);
        let candidate = project_ids[idx];
        if !locked.contains(&candidate) {
            locked.insert(candidate);
            assert(project_ids@[rotation_index(n as int, counter as int, offset as int)] == candidate);
            assert(first_free_at(old(locked)@, project_ids@, counter as int, offset as int));
            return Some(candidate);
        }
    }
    proof {
        assert forall|k: int| 0 <= k < n implies old(locked)@.contains(#[trigger] project_ids@[k]) by {
            let off = (k - start + n) % (n as int);
            assert(0 <= off < n);
            assert(rotation_index(n as int, counter as int, off) == k) by (nonlinear_arith)
                requires
                    0 <= start < n,
                    0 <= k < n,
                    off == (k - start + n) % (n as int),
                    start == counter as int % n as int,
                    n > 0,
            {
            }
        }
    }
    None
}

/// Two warmers never hold the same project: a lock taken after another
/// one, on the set the first left, is a different project, and both are
/// held afterwards. Nothing is locked while every project is held.
pub proof fn law_lock_exclusive(
    held: Set<i64>,
    ids1: Seq<i64>,
    c1: int,
    p1: i64,
    mid: Set<i64>,
    ids2: Seq<i64>,
    c2: int,
    r2: Option<i64>,
    after: Set<i64>,
)
    requires
        lock_step(held, ids1, c1, Some(p1), mid),
        lock_step(mid, ids2, c2, r2, after),
    ensures
        !held.contains(p1),
        after.contains(p1),
        r2 matches Some(p2) ==> p2 != p1 && after.contains(p2),
        r2 is None ==> after == mid,
{
    let k = choose|k: int| #[trigger] first_free_at(held, ids1, c1, k) && ids1[rotation_index(ids1.len() as int, c1, k)] == p1;
    assert(first_free_at(held, ids1, c1, k));
    if let Some(p2) = r2 {
        let k2 = choose|k: int| #[trigger] first_free_at(mid, ids2, c2, k) && ids2[rotation_index(ids2.len() as int, c2, k)] == p2;
        assert(first_free_at(mid, ids2, c2, k2));
        assert(mid.contains(p1));
    }
}

/// `(a + b) % n` for `a, b < n`, without overflow.
fn add_mod(a: usize, b: usize, n: usize) -> (r: usize)
    requires
        a < n,
        b < n,
    ensures
        r == (a + b) % (n as int),
{
    if b < n - a {
        assert((a + b) % (n as int) == a + b) by (nonlinear_arith)
            requires
                a + b < n,
        {
        }
        a + b
    } else {
        assert((a + b) % (n as int) == a + b - n) by (nonlinear_arith)
            requires
                n <= a + b < 2 * n,
        {
        }
        b - (n - a)
    }
}

/// What becomes of a project a warmer locked, once the queue answered its claim.
#[derive(Clone, Copy, PartialEq, Eq, Debug)]
pub enum ClaimSettlement {
    /// No job was claimed; the project was released.
    Released,
    /// The claimed job runs on this project, which is locked.
    Run { project_id: i64 },
    /// The job is pinned to a project someone else holds: release ours and
    /// put the job back in the queue.
    Requeue,
}

/// The settlement of a claim made while holding `project_id`, and the held
/// set after it.
pub open spec fn spec_settle(held: Set<i64>, project_id: i64, claimed_on: Option<i64>) -> (ClaimSettlement, Set<i64>) {
    match claimed_on {
        None => (ClaimSettlement::Released, held.remove(project_id)),
        Some(e) => if e == project_id {
            (ClaimSettlement::Run { project_id }, held)
        } else if held.remove(project_id).contains(e) {
            (ClaimSettlement::Requeue, held.remove(project_id))
        } else {
            (ClaimSettlement::Run { project_id: e }, held.remove(project_id).insert(e))
        },
    }
}

/// Settle a claim made while holding `project_id`: no job releases the
/// project; a job on the same project keeps it; a job pinned elsewhere
/// swaps the lock to its project, or goes back to the queue when that
/// project is already held.
pub fn settle_claim(locked: &mut HashSet<i64>, project_id: i64, claimed_on: Option<i64>) -> (s: ClaimSettlement)
    ensures
        (s, final(locked)@) == spec_settle(old(locked)@, project_id, claimed_on),
{
    match claimed_on {
        None => {
            locked.remove(&project_id);
            ClaimSettlement::Released
        },
        Some(e) => {
            if e == project_id {
                ClaimSettlement::Run { project_id }
            } else {
                locked.remove(&project_id);
                if locked.contains(&e) {
                    ClaimSettlement::Requeue
                } else {
                    locked.insert(e);
                    ClaimSettlement::Run { project_id: e }
                }
            }
        },
    }
}

/// A settled claim holds exactly the project its job runs on: the warmer
/// keeps its project only when the job runs there; a job moved to another
/// project gets it only when no one else holds it; otherwise the job goes
/// back to the queue and the warmer holds nothing. No other project's lock
/// changes.
pub proof fn law_settle_claim(held: Set<i64>, project_id: i64, claimed_on: Option<i64>)
    requires
        held.contains(project_id),
    ensures
        ({
            let (s, after) = spec_settle(held, project_id, claimed_on);
            &&& s matches ClaimSettlement::Run { project_id: q } ==> after.contains(q) && claimed_on == Some(q)
                && (q != project_id ==> !after.contains(project_id) && !held.remove(project_id).contains(q))
            &&& !(s is Run) ==> !after.contains(project_id) && after == held.remove(project_id)
            &&& s is Requeue ==> (claimed_on matches Some(e) && e != project_id && held.contains(e))
            &&& forall|x: i64| x != project_id && claimed_on != Some(x) ==> (after.contains(x) <==> held.contains(x))
        }),
{
}

/// A warmer pushes code to `project_id` only while it holds that project.
pub fn may_push(locked: &HashSet<i64>, project_id: i64) -> (r: bool)
    ensures
        r == locked@.contains(project_id),
{
    locked.contains(&project_id)
}

/// Position `i` of the rotation of `0..n` that starts at `counter % n`.
pub open spec fn rotated(i: int, counter: int, n: int) -> int {
    (i + counter % n) % n
}

/// The order in which a warmer tries the strategies: all of them, starting
/// at `counter % n`, so each strategy gets the same share of first picks.
pub fn strategy_order(n: usize, counter: usize) -> (order: Vec<usize>)
    ensures
        order@.len() == n,
        forall|i: int| 0 <= i < n ==> #[trigger] order@[i] == rotated(i, counter as int, n as int),
{
    let mut order: Vec<usize> = Vec::new();
    if n == 0 {
        return order;
    }
    let offset = counter % n;
    for i in 0..n
        invariant
            n > 0,
            offset == counter as int % n as int,
            order@.len() == i,
            forall|j: int| 0 <= j < i ==> #[trigger] order@[j] == (j + offset) % n as int,
    {
        order.push(add_mod(i, offset, n));
    }
    order
}

/// Each strategy appears exactly once in the order.
pub proof fn law_strategy_order_permutation(n: int, counter: int, s: int)
    requires
        n > 0,
        counter >= 0,
        0 <= s < n,
    ensures
        exists|i: int| 0 <= i < n && #[trigger] rotated(i, counter, n) == s,
        forall|i: int, j: int| 0 <= i < n && 0 <= j < n && #[trigger] rotated(i, counter, n) == #[trigger] rotated(j, counter, n) ==> i == j,
{
    let off = counter % n;
    let w = (s - off + n) % n;
    assert((w + off) % n == s) by (nonlinear_arith)
        requires
            n > 0,
            0 <= off < n,
            0 <= s < n,
            w == (s - off + n) % n,
    {
    }
    assert(rotated(w, counter, n) == s);
    assert forall|i: int, j: int| 0 <= i < n && 0 <= j < n && #[trigger] rotated(i, counter, n) == #[trigger] rotated(j, counter, n) implies i == j by {
        assert(i == j) by (nonlinear_arith)
            requires
                n > 0,
                0 <= off < n,
                0 <= i < n,
                0 <= j < n,
                (i + off) % n == (j + off) % n,
        {
        }
    }
}

} // verus!
