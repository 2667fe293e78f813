//! Ordering the pool by creation time before `delete-projects` trims it.
use vstd::prelude::*;
use crate::text::{chars_of, same_text};
use vstd::string::*;

verus! {

/// How `delete-projects` orders the pool before keeping its head.
#[derive(Clone, Copy, PartialEq, Eq, Debug)]
pub enum SortBy {
    /// File order: keep the order of `projects.json`.
    FileOrder,
    /// Oldest first by creation time, so `keep` keeps the oldest.
    CreatedAsc,
    /// Newest first by creation time, so `keep` keeps the newest.
    CreatedDesc,
}

/// Lexicographic comparison of two texts by code point: `-1`, `0` or `1`.
/// This is the order of `String`'s `Ord`, which compares UTF-8 bytes.
pub open spec fn text_order(a: Seq<char>, b: Seq<char>) -> int
    decreases a.len(),
{
    if a.len() == 0 && b.len() == 0 {
        0
    } else if a.len() == 0 {
        -1
    } else if b.len() == 0 {
        1
    } else if (a[0] as u32) < (b[0] as u32) {
        -1
    } else if (a[0] as u32) > (b[0] as u32) {
        1
    } else {
        text_order(a.drop_first(), b.drop_first())
    }
}

/// The creation time recorded for `pid` in the account's project list (the
/// last entry for that id wins), or `None` when the list has no such project.
pub open spec fn created_of(remote: Seq<(i64, String)>, pid: i64) -> Option<Seq<char>>
    decreases remote.len(),
{
    if remote.len() == 0 {
        None
    } else if remote.last().0 == pid {
        Some(remote.last().1@)
    } else {
        created_of(remote.drop_last(), pid)
    }
}

/// `a` may come before `b`: known times before unknown ones; known times
/// ascending, or descending for `CreatedDesc`; unknown ones tie.
pub open spec fn created_le(a: Option<Seq<char>>, b: Option<Seq<char>>, desc: bool) -> bool {
    match (a, b) {
        (Some(x), Some(y)) => if desc {
            text_order(y, x) <= 0
        } else {
            text_order(x, y) <= 0
        },
        (Some(_), None) => true,
        (None, Some(_)) => false,
        (None, None) => true,
    }
}

/// Ids whose creation time is `k`.
pub open spec fn with_created(remote: Seq<(i64, String)>, k: Option<Seq<char>>) -> spec_fn(i64) -> bool {
    |p: i64| created_of(remote, p) == k
}

/// `out` is ordered by creation time.
pub open spec fn ordered_by_created(out: Seq<i64>, remote: Seq<(i64, String)>, desc: bool) -> bool {
    forall|i: int, j: int|
        0 <= i < j < out.len() ==> created_le(
            created_of(remote, #[trigger] out[i]),
            created_of(remote, #[trigger] out[j]),
            desc,
        )
}

/// `out` holds the ids of `pids` with each group of equal creation time in its original order.
pub open spec fn stable_rearrangement(out: Seq<i64>, pids: Seq<i64>, remote: Seq<(i64, String)>) -> bool {
    forall|k: Option<Seq<char>>| #[trigger] out.filter(with_created(remote, k)) == pids.filter(with_created(remote, k))
}

proof fn lemma_text_order_antisym(a: Seq<char>, b: Seq<char>)
    ensures
        text_order(a, b) == -text_order(b, a),
        text_order(a, b) == 0 ==> a == b,
        -1 <= text_order(a, b) <= 1,
    decreases a.len(),
{
    if a.len() > 0 && b.len() > 0 && a[0] as u32 == b[0] as u32 {
        lemma_text_order_antisym(a.drop_first(), b.drop_first());
        if text_order(a, b) == 0 {
            assert(a[0] == b[0]) by {
                vstd::utf8::char_u32_cast(a[0], a[0] as u32);
                vstd::utf8::char_u32_cast(b[0], b[0] as u32);
            }
            assert(a =~= seq![a[0]] + a.drop_first());
            assert(b =~= seq![b[0]] + b.drop_first());
        }
    }
}

/// Texts compare from their first character on: where `a` and `b` agree on
/// their first `k` characters and `a[k]` has the lower code point, `a`
/// comes first; a proper prefix comes before the longer text; equal texts tie.
pub proof fn law_text_order_lexicographic(a: Seq<char>, b: Seq<char>, k: int)
    requires
        0 <= k <= a.len(),
        k <= b.len(),
        a.take(k) == b.take(k),
    ensures
        k < a.len() && k < b.len() && (a[k] as u32) < (b[k] as u32) ==> text_order(a, b) == -1 && text_order(b, a) == 1,
        k == a.len() && k < b.len() ==> text_order(a, b) == -1 && text_order(b, a) == 1,
        k == a.len() && k == b.len() ==> text_order(a, b) == 0,
    decreases k,
{
    if k > 0 {
        assert(a[0] == a.take(k)[0] && b[0] == b.take(k)[0]);
        assert(a.drop_first().take(k - 1) =~= a.take(k).drop_first());
        assert(b.drop_first().take(k - 1) =~= b.take(k).drop_first());
        law_text_order_lexicographic(a.drop_first(), b.drop_first(), k - 1);
        if k < a.len() && k < b.len() {
            assert(a.drop_first()[k - 1] == a[k] && b.drop_first()[k - 1] == b[k]);
        }
    }
}

/// Sorted by creation time, oldest first, a project whose creation time is
/// lexicographically smaller (first differing character lower, or a proper
/// prefix) stands before one whose time is larger; newest first, after it.
pub proof fn law_created_earlier_first(
    out: Seq<i64>,
    remote: Seq<(i64, String)>,
    desc: bool,
    i: int,
    j: int,
    x: Seq<char>,
    y: Seq<char>,
    k: int,
)
    requires
        ordered_by_created(out, remote, desc),
        0 <= i < out.len(),
        0 <= j < out.len(),
        created_of(remote, out[i]) == Some(x),
        created_of(remote, out[j]) == Some(y),
        0 <= k <= x.len(),
        k < y.len(),
        x.take(k) == y.take(k),
        k == x.len() || (x[k] as u32) < (y[k] as u32),
    ensures
        !desc ==> i < j,
        desc ==> j < i,
{
    law_text_order_lexicographic(x, y, k);
    if i == j {
        assert(x == y);
    } else if !desc && j < i {
        assert(created_le(created_of(remote, out[j]), created_of(remote, out[i]), desc));
    } else if desc && i < j {
        assert(created_le(created_of(remote, out[i]), created_of(remote, out[j]), desc));
    }
}

/// Sorted by creation time, either way, a project whose creation time is
/// known stands before every project the account's list does not know.
pub proof fn law_unknown_last(out: Seq<i64>, remote: Seq<(i64, String)>, desc: bool, i: int, j: int)
    requires
        ordered_by_created(out, remote, desc),
        0 <= i < out.len(),
        0 <= j < out.len(),
        created_of(remote, out[i]) is Some,
        created_of(remote, out[j]) is None,
    ensures
        i < j,
{
    if j < i {
        assert(created_le(created_of(remote, out[j]), created_of(remote, out[i]), desc));
    }
}

proof fn lemma_text_order_trans(a: Seq<char>, b: Seq<char>, c: Seq<char>)
    requires
        text_order(a, b) <= 0,
        text_order(b, c) <= 0,
    ensures
        text_order(a, c) <= 0,
    decreases a.len(),
{
    lemma_text_order_antisym(a, b);
    lemma_text_order_antisym(b, c);
    if a.len() > 0 && b.len() > 0 && c.len() > 0 && a[0] as u32 == b[0] as u32 && b[0] as u32 == c[0] as u32 {
        lemma_text_order_trans(a.drop_first(), b.drop_first(), c.drop_first());
    }
}

proof fn lemma_created_le_total(a: Option<Seq<char>>, b: Option<Seq<char>>, desc: bool)
    ensures
        created_le(a, b, desc) || created_le(b, a, desc),
        created_le(a, a, desc),
        created_le(a, b, desc) && created_le(b, a, desc) ==> a == b,
{
    if let (Some(x), Some(y)) = (a, b) {
        lemma_text_order_antisym(x, y);
    }
    if let Some(x) = a {
        lemma_text_order_antisym(x, x);
    }
}

proof fn lemma_created_le_trans(a: Option<Seq<char>>, b: Option<Seq<char>>, c: Option<Seq<char>>, desc: bool)
    requires
        created_le(a, b, desc),
        created_le(b, c, desc),
    ensures
        created_le(a, c, desc),
{
    if let (Some(x), Some(y), Some(z)) = (a, b, c) {
        if desc {
            lemma_text_order_trans(z, y, x);
        } else {
            lemma_text_order_trans(x, y, z);
        }
    }
}

/// Compare two texts by code point: `-1`, `0` or `1`.
fn compare_text(a: &Vec<char>, b: &Vec<char>) -> (r: i8)
    ensures
        r as int == text_order(a@, b@),
{
    let mut i: usize = 0;
    assert(a@.skip(0) =~= a@ && b@.skip(0) =~= b@);
    while i < a.len() && i < b.len()
        invariant
            i <= a.len(),
            i <= b.len(),
            text_order(a@, b@) == text_order(a@.skip(i as int), b@.skip(i as int)),
        decreases a.len() - i,
    {
        let x = a[i];
        let y = b[i];
        assert(a@.skip(i as int)[0] == x && b@.skip(i as int)[0] == y);
        if (x as u32) < (y as u32) {
            return -1;
        }
        if (x as u32) > (y as u32) {
            return 1;
        }
        assert(a@.skip(i as int).drop_first() =~= a@.skip(i + 1));
        assert(b@.skip(i as int).drop_first() =~= b@.skip(i + 1));
        i = i + 1;
    }
    if i == a.len() && i == b.len() {
        0
    } else if i == a.len() {
        -1
    } else {
        1
    }
}

/// The creation time recorded for `pid`: the last entry for that id wins.
pub fn lookup_created(remote: &[(i64, String)], pid: i64) -> (r: Option<Vec<char>>)
    ensures
        match r {
            Some(v) => created_of(remote@, pid) == Some(v@),
            None => created_of(remote@, pid) is None,
        },
{
    let mut j: usize = remote.len();
    assert(remote@.take(j as int) =~= remote@);
    while j > 0
        invariant
            j <= remote.len(),
            created_of(remote@, pid) == created_of(remote@.take(j as int), pid),
        decreases j,
    {
        assert(remote@.take(j as int).drop_last() =~= remote@.take(j - 1));
        if remote[j - 1].0 == pid {
            return Some(chars_of(remote[j - 1].1.as_str()));
        }
        j = j - 1;
    }
    None
}

fn key_le(a: &Option<Vec<char>>, b: &Option<Vec<char>>, desc: bool) -> (r: bool)
    ensures
        r == created_le(opt_view(*a), opt_view(*b), desc),
{
    match (a, b) {
        (Some(x), Some(y)) => if desc {
            compare_text(y, x) <= 0
        } else {
            compare_text(x, y) <= 0
        },
        (Some(_), None) => true,
        (None, Some(_)) => false,
        (None, None) => true,
    }
}

/// The view of an optional character vector.
pub open spec fn opt_view(o: Option<Vec<char>>) -> Option<Seq<char>> {
    match o {
        Some(v) => Some(v@),
        None => None,
    }
}

/// Reorder `pids` by their creation time in the account's project list:
/// oldest first (newest first for `desc`); ids the list does not know go
/// last; ids with equal creation time, unknown ones among them, keep their
/// order.
pub fn sort_by_created(pids: &[i64], remote: &[(i64, String)], desc: bool) -> (out: Vec<i64>)
    ensures
        ordered_by_created(out@, remote@, desc),
        stable_rearrangement(out@, pids@, remote@),
        out@.len() == pids@.len(),
{
    let mut out: Vec<i64> = Vec::new();
    let mut keys: Vec<Option<Vec<char>>> = Vec::new();
    for i in 0..pids.len()
        invariant
            out@.len() == keys@.len(),
            out@.len() == i,
            forall|m: int| 0 <= m < out@.len() ==> opt_view(#[trigger] keys@[m]) == created_of(remote@, out@[m]),
            ordered_by_created(out@, remote@, desc),
            forall|k: Option<Seq<char>>| #[trigger] out@.filter(with_created(remote@, k)) == pids@.take(i as int).filter(with_created(remote@, k)),
    {
        let pid = pids[i];
        let key = lookup_created(remote, pid);
        let ghost e_key = created_of(remote@, pid);
        assert(opt_view(key) == e_key);
        let mut p: usize = 0;
        while p < out.len() && key_le(&keys[p], &key, desc)
            invariant
                p <= out@.len(),
                out@.len() == keys@.len(),
                opt_view(key) == e_key,
                forall|m: int| 0 <= m < out@.len() ==> opt_view(#[trigger] keys@[m]) == created_of(remote@, out@[m]),
                forall|m: int| 0 <= m < p ==> created_le(created_of(remote@, #[trigger] out@[m]), e_key, desc),
            decreases out@.len() - p,
        {
            p = p + 1;
        }
        let ghost before = out@;
        proof {
            lemma_insert_keeps_order(before, remote@, desc, p as int, pid);
            assert forall|k: Option<Seq<char>>| #[trigger] before.take(p as int).push(pid).add(before.skip(p as int)).filter(with_created(remote@, k))
                == pids@.take(i + 1).filter(with_created(remote@, k)) by {
                lemma_insert_filter(before, remote@, desc, p as int, pid, k);
                assert(pids@.take(i + 1) =~= pids@.take(i as int).push(pid));
                pids@.take(i as int).lemma_filter_push(pid, with_created(remote@, k));
            }
        }
        out.insert(p, pid);
        keys.insert(p, key);
        assert(out@ =~= before.take(p as int).push(pid).add(before.skip(p as int)));
        assert forall|m: int| 0 <= m < out@.len() implies opt_view(#[trigger] keys@[m]) == created_of(remote@, out@[m]) by {
            if m > p as int {
                assert(out@[m] == before[m - 1]);
            }
        }
    }
    assert(pids@.take(pids.len() as int) =~= pids@);
    out
}

proof fn lemma_insert_keeps_order(before: Seq<i64>, remote: Seq<(i64, String)>, desc: bool, p: int, pid: i64)
    requires
        0 <= p <= before.len(),
        ordered_by_created(before, remote, desc),
        forall|m: int| 0 <= m < p ==> created_le(created_of(remote, #[trigger] before[m]), created_of(remote, pid), desc),
        p < before.len() ==> !created_le(created_of(remote, before[p]), created_of(remote, pid), desc),
    ensures
        ordered_by_created(before.take(p).push(pid).add(before.skip(p)), remote, desc),
{
    let out = before.take(p).push(pid).add(before.skip(p));
    let ek = created_of(remote, pid);
    assert forall|i: int, j: int| 0 <= i < j < out.len() implies created_le(
        created_of(remote, #[trigger] out[i]),
        created_of(remote, #[trigger] out[j]),
        desc,
    ) by {
        if j < p {
            assert(out[i] == before[i] && out[j] == before[j]);
        } else if j == p {
            assert(out[i] == before[i]);
        } else if i > p {
            assert(out[i] == before[i - 1] && out[j] == before[j - 1]);
        } else if i == p {
            assert(out[j] == before[j - 1]);
            let pk = created_of(remote, before[p]);
            lemma_created_le_total(pk, ek, desc);
            if j - 1 > p {
                assert(created_le(pk, created_of(remote, before[j - 1]), desc));
                lemma_created_le_trans(ek, pk, created_of(remote, before[j - 1]), desc);
            }
        } else {
            assert(out[i] == before[i] && out[j] == before[j - 1]);
        }
    }
}

proof fn lemma_insert_filter(
    before: Seq<i64>,
    remote: Seq<(i64, String)>,
    desc: bool,
    p: int,
    pid: i64,
    k: Option<Seq<char>>,
)
    requires
        0 <= p <= before.len(),
        ordered_by_created(before, remote, desc),
        forall|m: int| 0 <= m < p ==> created_le(created_of(remote, #[trigger] before[m]), created_of(remote, pid), desc),
        p < before.len() ==> !created_le(created_of(remote, before[p]), created_of(remote, pid), desc),
    ensures
        created_of(remote, pid) != k ==> before.take(p).push(pid).add(before.skip(p)).filter(with_created(remote, k))
            == before.filter(with_created(remote, k)),
        created_of(remote, pid) == k ==> before.take(p).push(pid).add(before.skip(p)).filter(with_created(remote, k))
            == before.filter(with_created(remote, k)).push(pid),
{
    let f = with_created(remote, k);
    let ek = created_of(remote, pid);
    let head = before.take(p);
    let tail = before.skip(p);
    assert(before =~= head + tail);
    Seq::filter_distributes_over_add(head, tail, f);
    Seq::filter_distributes_over_add(head.push(pid), tail, f);
    head.lemma_filter_push(pid, f);
    if ek == k {
        // No id of the tail has the same creation time as `pid`.
        assert(tail.filter(f) =~= Seq::<i64>::empty()) by {
            if tail.filter(f).len() > 0 {
                let x = tail.filter(f)[0];
                tail.lemma_filter_contains_rev(f, x);
                assert(tail.filter(f).contains(x));
                lemma_filter_elem_pred(tail, f, x);
                let w = choose|w: int| 0 <= w < tail.len() && tail[w] == x;
                assert(before[p + w] == x);
                lemma_created_le_total(ek, ek, desc);
                if w > 0 {
                    assert(created_le(created_of(remote, before[p]), created_of(remote, before[p + w]), desc));
                }
            }
        }
        assert(before.filter(f) =~= head.filter(f) + tail.filter(f));
    }
}

proof fn lemma_filter_elem_pred(s: Seq<i64>, f: spec_fn(i64) -> bool, x: i64)
    requires
        s.filter(f).contains(x),
    ensures
        f(x),
{
    let w = choose|w: int| 0 <= w < s.filter(f).len() && s.filter(f)[w] == x;
    broadcast use vstd::seq_lib::group_filter_ensures;
    assert(f(s.filter(f)[w]));
}

/// The order `sort_by` names, from its command-line spelling: `none` or the
/// empty text for file order, `created` or `created_asc` for oldest first,
/// `created_desc` for newest first.
pub open spec fn spec_parse_sort_by(s: Seq<char>) -> Option<SortBy> {
    if s == "none"@ || s == ""@ {
        Some(SortBy::FileOrder)
    } else if s == "created"@ || s == "created_asc"@ {
        Some(SortBy::CreatedAsc)
    } else if s == "created_desc"@ {
        Some(SortBy::CreatedDesc)
    } else {
        None
    }
}

/// The message for an unknown spelling.
pub open spec fn sort_by_error(s: Seq<char>) -> Seq<char> {
    "invalid sort-by '"@ + s + "': use one of none|created|created_desc"@
}

impl SortBy {
    /// Read a `--sort-by` value.
    pub fn parse(s: &str) -> (r: Result<SortBy, String>)
        ensures
            spec_parse_sort_by(s@) matches Some(v) ==> r == Ok::<SortBy, String>(v),
            spec_parse_sort_by(s@) is None ==> (r matches Err(msg) && msg@ == sort_by_error(s@)),
    {
        if same_text(s, "none") || same_text(s, "") {
            Ok(SortBy::FileOrder)
        } else if same_text(s, "created") || same_text(s, "created_asc") {
            Ok(SortBy::CreatedAsc)
        } else if same_text(s, "created_desc") {
            Ok(SortBy::CreatedDesc)
        } else {
            let mut msg = String::from_str("invalid sort-by '");
            msg.append(s);
            msg.append("': use one of none|created|created_desc");
            Err(msg)
        }
    }
}

impl std::str::FromStr for SortBy {
    type Err = String;

    fn from_str(s: &str) -> (r: Result<SortBy, String>)
        ensures
            spec_parse_sort_by(s@) matches Some(v) ==> r == Ok::<SortBy, String>(v),
            spec_parse_sort_by(s@) is None ==> (r matches Err(msg) && msg@ == sort_by_error(s@)),
    {
        SortBy::parse(s)
    }
}

/// The pool in the order `sort_by` asks for.
pub fn order_pool(pids: &[i64], remote: &[(i64, String)], sort_by: SortBy) -> (out: Vec<i64>)
    ensures
        sort_by == SortBy::FileOrder ==> out@ == pids@,
        sort_by == SortBy::CreatedAsc ==> ordered_by_created(out@, remote@, false)
            && stable_rearrangement(out@, pids@, remote@) && out@.len() == pids@.len(),
        sort_by == SortBy::CreatedDesc ==> ordered_by_created(out@, remote@, true)
            && stable_rearrangement(out@, pids@, remote@) && out@.len() == pids@.len(),
{
    match sort_by {
        SortBy::FileOrder => {
            let mut out: Vec<i64> = Vec::new();
            for i in 0..pids.len()
                invariant
                    out@ == pids@.take(i as int),
            {
                out.push(pids[i]);
                assert(pids@.take(i + 1) =~= pids@.take(i as int).push(pids@[i as int]));
            }
            assert(pids@.take(pids.len() as int) =~= pids@);
            out
        },
        SortBy::CreatedAsc => sort_by_created(pids, remote, false),
        SortBy::CreatedDesc => sort_by_created(pids, remote, true),
    }
}

} // verus!
