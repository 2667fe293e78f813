//! Rules of configuration loading: which files in the data directory are
//! strategy databases, the strategy name of each, the order they load in,
//! and which project ids a strategy runs on.
use vstd::prelude::*;
use vstd::string::*;
use crate::text::{chars_of, lower_seq, to_lower, decimal, dec_digits};
use crate::numparse::{parse_i64, spec_parse_i64};
use crate::created_sort::{sort_by_created, ordered_by_created, stable_rearrangement};

verus! {

/// Position of the last `.` in a file name, if any.
pub open spec fn last_dot(name: Seq<char>) -> Option<int>
    decreases name.len(),
{
    if name.len() == 0 {
        None
    } else if name.last() == '.' {
        Some(name.len() - 1)
    } else {
        last_dot(name.drop_last())
    }
}

/// The extension of a file name as `Path::extension` reads it: the text after
/// the last `.`, unless that dot starts the name.
pub open spec fn extension(name: Seq<char>) -> Option<Seq<char>> {
    match last_dot(name) {
        Some(k) => if k == 0 {
            None
        } else {
            Some(name.skip(k + 1))
        },
        None => None,
    }
}

/// `s` ends with `suffix`.
pub open spec fn ends_with(s: Seq<char>, suffix: Seq<char>) -> bool {
    s.len() >= suffix.len() && s.skip(s.len() - suffix.len()) == suffix
}

/// A strategy database file: its name starts with `S`, its extension is
/// `db` in any ASCII case, and it is not a `.db.bak` backup.
pub open spec fn spec_is_strategy_db_name(name: Seq<char>) -> bool {
    &&& name.len() > 0 && name[0] == 'S'
    &&& extension(name) matches Some(e) && lower_seq(e) == "db"@
    &&& !ends_with(name, ".db.bak"@)
}

fn find_last_dot(cs: &Vec<char>) -> (r: Option<usize>)
    ensures
        match r {
            Some(k) => last_dot(cs@) == Some(k as int) && k < cs@.len(),
            None => last_dot(cs@) is None,
        },
{
    let mut j: usize = cs.len();
    assert(cs@.take(j as int) =~= cs@);
    while j > 0
        invariant
            j <= cs.len(),
            last_dot(cs@) == last_dot(cs@.take(j as int)),
        decreases j,
    {
        assert(cs@.take(j as int).drop_last() =~= cs@.take(j - 1));
        if cs[j - 1] == '.' {
            return Some(j - 1);
        }
        j = j - 1;
    }
    None
}

fn chars_ends_with(cs: &Vec<char>, suffix: &str) -> (r: bool)
    ensures
        r == ends_with(cs@, suffix@),
{
    let sx = chars_of(suffix);
    if sx.len() > cs.len() {
        return false;
    }
    let base = cs.len() - sx.len();
    for i in 0..sx.len()
        invariant
            base == cs.len() - sx.len(),
            sx@ == suffix@,
            forall|j: int| 0 <= j < i ==> cs@[base + j] == sx@[j],
    {
        if cs[base + i] != sx[i] {
            assert(cs@.skip(base as int)[i as int] != sx@[i as int]);
            return false;
        }
    }
    assert(cs@.skip(base as int) =~= sx@);
    true
}

/// Is `name` the file name of a strategy database?
pub fn is_strategy_db_name(name: &str) -> (r: bool)
    ensures
        r == spec_is_strategy_db_name(name@),
{
    proof {
        reveal_strlit("db");
    }
    let cs = chars_of(name);
    if cs.len() == 0 || cs[0] != 'S' {
        return false;
    }
    let dot = match find_last_dot(&cs) {
        Some(k) => k,
        None => return false,
    };
    if dot == 0 {
        return false;
    }
    let n = cs.len();
    if n - (dot + 1) != 2 {
        assert(lower_seq(cs@.skip(dot + 1)).len() != 2);
        return false;
    }
    let a = to_lower(cs[dot + 1]);
    let b = to_lower(cs[dot + 2]);
    if a != 'd' || b != 'b' {
        assert(lower_seq(cs@.skip(dot + 1))[0] == a);
        assert(lower_seq(cs@.skip(dot + 1))[1] == b);
        return false;
    }
    assert(lower_seq(cs@.skip(dot + 1)) =~= "db"@);
    !chars_ends_with(&cs, ".db.bak")
}

/// The name with every trailing `.db` removed (`trim_end_matches(".db")`).
pub open spec fn trim_db(name: Seq<char>) -> Seq<char>
    decreases name.len(),
{
    if name.len() >= 3 && ends_with(name, ".db"@) {
        trim_db(name.take(name.len() - 3))
    } else {
        name
    }
}

/// Unicode lower-casing of a text (std's `str::to_lowercase`).
pub uninterp spec fn unicode_lower(s: Seq<char>) -> Seq<char>;

/// std's `str::to_lowercase`.
#[verifier::external_body]
fn to_lowercase(s: &str) -> (r: String)
    ensures
        r@ == unicode_lower(s@),
{
    s.to_lowercase()
}

/// The strategy a database file belongs to: its name without trailing
/// `.db`, lower-cased (`EXAMPLE.db` gives `example`).
pub fn strategy_name(file_name: &str) -> (s: String)
    ensures
        s@ == unicode_lower(trim_db(file_name@)),
{
    proof {
        reveal_strlit(".db");
    }
    let cs = chars_of(file_name);
    let mut end: usize = cs.len();
    assert(cs@.take(end as int) =~= cs@);
    loop
        invariant
            end <= cs.len(),
            cs@ == file_name@,
            trim_db(file_name@) == trim_db(cs@.take(end as int)),
        ensures
            end <= cs.len(),
            trim_db(file_name@) == cs@.take(end as int),
        decreases end,
    {
        proof {
            reveal_strlit(".db");
        }
        let ghost t = cs@.take(end as int);
        if end >= 3 && cs[end - 3] == '.' && cs[end - 2] == 'd' && cs[end - 1] == 'b' {
            assert(ends_with(t, ".db"@)) by {
                assert(t.skip(t.len() - 3) =~= ".db"@);
            }
            assert(t.take(t.len() - 3) =~= cs@.take(end - 3));
            end = end - 3;
        } else {
            assert(!ends_with(t, ".db"@)) by {
                if t.len() >= 3 && ends_with(t, ".db"@) {
                    assert(t.skip(t.len() - 3)[0] == t[t.len() - 3]);
                    assert(t.skip(t.len() - 3)[1] == t[t.len() - 2]);
                    assert(t.skip(t.len() - 3)[2] == t[t.len() - 1]);
                }
            }
            break;
        }
    }
    let trimmed = file_name.substring_char(0, end);
    assert(trimmed@ == trim_db(file_name@));
    to_lowercase(trimmed)
}

/// The order in which strategies load: by strategy name. The result lists
/// positions into `names`.
pub fn strategy_load_order(names: &[String]) -> (order: Vec<i64>)
    requires
        names@.len() <= i64::MAX,
    ensures
        ordered_by_created(order@, named_positions(names@), false),
        stable_rearrangement(order@, positions(names@.len()), named_positions(names@)),
{
    let mut remote: Vec<(i64, String)> = Vec::new();
    let mut pids: Vec<i64> = Vec::new();
    for i in 0..names.len()
        invariant
            names@.len() <= i64::MAX,
            remote@ == named_positions(names@.take(i as int)),
            pids@ == positions(i as nat),
    {
        remote.push((i as i64, names[i].clone()));
        pids.push(i as i64);
        assert(remote@ =~= named_positions(names@.take(i + 1)));
        assert(pids@ =~= positions((i + 1) as nat));
    }
    assert(names@.take(names@.len() as int) =~= names@);
    sort_by_created(pids.as_slice(), remote.as_slice(), false)
}

/// Each name paired with its position.
pub open spec fn named_positions(names: Seq<String>) -> Seq<(i64, String)> {
    Seq::new(names.len(), |i: int| (i as i64, names[i]))
}

/// The positions `0..n`.
pub open spec fn positions(n: nat) -> Seq<i64> {
    Seq::new(n, |i: int| i as i64)
}

/// The settings that name a strategy's own projects when `projects.json`
/// lists none: `cloud_project_id`, then `cloud_project_id_2` to `cloud_project_id_20`.
pub open spec fn project_setting_key(k: int) -> Seq<char> {
    if k == 0 {
        "cloud_project_id"@
    } else {
        "cloud_project_id_"@ + dec_digits((k + 1) as nat)
    }
}

/// The keys of the per-strategy project settings, in the order they are read.
pub fn project_setting_keys() -> (keys: Vec<String>)
    ensures
        keys@.len() == 20,
        forall|k: int| 0 <= k < 20 ==> #[trigger] keys@[k]@ == project_setting_key(k),
{
    let mut keys: Vec<String> = Vec::new();
    keys.push(String::from_str("cloud_project_id"));
    let mut n: u64 = 2;
    while n <= 20
        invariant
            2 <= n <= 21,
            keys@.len() == n - 1,
            forall|k: int| 0 <= k < n - 1 ==> #[trigger] keys@[k]@ == project_setting_key(k),
        decreases 21 - n,
    {
        let mut key = String::from_str("cloud_project_id_");
        let digits = decimal(n);
        key.append(digits.as_str());
        keys.push(key);
        n = n + 1;
    }
    keys
}

/// The values of the per-strategy project settings that parse as ids, in order.
pub open spec fn parsed_ids(values: Seq<Option<String>>) -> Seq<i64>
    decreases values.len(),
{
    if values.len() == 0 {
        Seq::empty()
    } else {
        let rest = parsed_ids(values.drop_last());
        match values.last() {
            Some(v) => match spec_parse_i64(v@) {
                Some(id) => rest.push(id),
                None => rest,
            },
            None => rest,
        }
    }
}

/// The projects a strategy runs on: those of `projects.json` when it lists
/// any; else the strategy's own settings that parse as ids. `None` when that
/// leaves none: the strategy is disabled, though its database still serves
/// credentials.
pub fn strategy_project_ids(shared: &[i64], setting_values: &[Option<String>]) -> (r: Option<Vec<i64>>)
    ensures
        shared@.len() > 0 ==> (r matches Some(ids) && ids@ == shared@),
        shared@.len() == 0 && parsed_ids(setting_values@).len() > 0 ==> (r matches Some(ids) && ids@ == parsed_ids(setting_values@)),
        shared@.len() == 0 && parsed_ids(setting_values@).len() == 0 ==> r is None,
{
    if shared.len() > 0 {
        let mut ids: Vec<i64> = Vec::new();
        for i in 0..shared.len()
            invariant
                ids@ == shared@.take(i as int),
        {
            ids.push(shared[i]);
            assert(shared@.take(i + 1) =~= shared@.take(i as int).push(shared@[i as int]));
        }
        assert(shared@.take(shared.len() as int) =~= shared@);
        return Some(ids);
    }
    let mut ids: Vec<i64> = Vec::new();
    for i in 0..setting_values.len()
        invariant
            ids@ == parsed_ids(setting_values@.take(i as int)),
    {
        assert(setting_values@.take(i + 1).drop_last() =~= setting_values@.take(i as int));
        if let Some(v) = &setting_values[i] {
            if let Some(id) = parse_i64(v.as_str()) {
                ids.push(id);
            }
        }
    }
    assert(setting_values@.take(setting_values.len() as int) =~= setting_values@);
    if ids.len() == 0 {
        None
    } else {
        Some(ids)
    }
}

/// The error for a required setting that is absent: `missing setting {category}/{key}`.
pub fn missing_setting_message(category: &str, key: &str) -> (m: String)
    ensures
        m@ == "missing setting "@ + category@ + "/"@ + key@,
{
    let mut m = String::from_str("missing setting ");
    m.append(category);
    m.append("/");
    m.append(key);
    m
}

} // verus!
