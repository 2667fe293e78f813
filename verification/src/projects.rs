//! The shared project pool (`projects.json`) and the rules of the commands
//! that grow, trim and reconcile it.
use vstd::prelude::*;
use vstd::set_lib::*;
use crate::numparse::{parse_u64, spec_parse_u64};
use crate::text::{chars_of, has_infix, lower_seq, lower_contains, decimal, dec_digits};
use vstd::string::*;

verus! {

/// Prefix of the names of pool projects.
pub open spec fn pool_prefix() -> Seq<char> {
    "bt_pool_"@
}

/// The numeric suffix of a pool project name `bt_pool_<n>`, if the name has one.
pub open spec fn pool_suffix(name: Seq<char>) -> Option<u64> {
    if name.len() >= 8 && name.take(8) == pool_prefix() {
        spec_parse_u64(name.skip(8))
    } else {
        None
    }
}

/// `n` is the suffix of one of `names`.
pub open spec fn suffix_used(names: Seq<String>, n: int) -> bool {
    exists|i: int| 0 <= i < names.len() && #[trigger] pool_suffix(names[i]@) == Some(n as u64)
}

/// The numeric suffix of a pool project name, if it has one.
pub fn pool_name_suffix(name: &str) -> (r: Option<u64>)
    ensures
        r == pool_suffix(name@),
{
    proof {
        reveal_strlit("bt_pool_");
    }
    let cs = chars_of(name);
    if cs.len() < 8 {
        return None;
    }
    let p = chars_of("bt_pool_");
    let mut k: usize = 0;
    while k < 8
        invariant
            cs@ == name@,
            p@ == pool_prefix(),
            p@.len() == 8,
            cs.len() >= 8,
            k <= 8,
            forall|j: int| 0 <= j < k ==> cs@[j] == p@[j],
        decreases 8 - k,
    {
        if cs[k] != p[k] {
            assert(name@.take(8)[k as int] != pool_prefix()[k as int]);
            return None;
        }
        k = k + 1;
    }
    assert(name@.take(8) =~= pool_prefix());
    let rest = name.substring_char(8, cs.len());
    parse_u64(rest)
}

/// The suffixes that the names `bt_pool_<n>` among `names` use.
pub fn used_pool_suffixes(names: &[String]) -> (used: Vec<u64>)
    ensures
        used@.len() <= names@.len(),
        forall|n: u64| #[trigger] used@.contains(n) <==> suffix_used(names@, n as int),
{
    let mut used: Vec<u64> = Vec::new();
    for i in 0..names.len()
        invariant
            used@.len() <= i,
            forall|n: u64| #[trigger] used@.contains(n) <==> exists|j: int|
                0 <= j < i && pool_suffix(names@[j]@) == Some(n),
    {
        let ghost before = used@;
        let found = pool_name_suffix(names[i].as_str());
        if let Some(n) = found {
            used.push(n);
        }
        proof {
            assert forall|n: u64| #[trigger] used@.contains(n) <==> exists|j: int|
                0 <= j < i + 1 && pool_suffix(names@[j]@) == Some(n) by {
                if used@.contains(n) {
                    let w = choose|w: int| 0 <= w < used@.len() && used@[w] == n;
                    if w < before.len() {
                        assert(before[w] == n);
                        assert(before.contains(n));
                    } else {
                        assert(pool_suffix(names@[i as int]@) == Some(n));
                    }
                }
                if exists|j: int| 0 <= j < i + 1 && pool_suffix(names@[j]@) == Some(n) {
                    let j = choose|j: int| 0 <= j < i + 1 && pool_suffix(names@[j]@) == Some(n);
                    if j < i {
                        assert(before.contains(n));
                        let w = choose|w: int| 0 <= w < before.len() && before[w] == n;
                        assert(used@[w] == n);
                    } else {
                        assert(used@[used@.len() - 1] == n);
                    }
                }
            }
        }
    }
    used
}

/// `n` is the least suffix above `after` that `used` does not hold.
pub open spec fn is_next_free(used: Seq<u64>, after: u64, n: u64) -> bool {
    &&& n > after
    &&& !used.contains(n)
    &&& forall|k: u64| after < k < n ==> #[trigger] used.contains(k)
}

/// The least suffix above `after` that `used` does not hold.
pub open spec fn spec_next_free(used: Seq<u64>, after: u64) -> u64 {
    choose|n: u64| is_next_free(used, after, n)
}

proof fn lemma_next_free_unique(used: Seq<u64>, after: u64, a: u64, b: u64)
    requires
        is_next_free(used, after, a),
        is_next_free(used, after, b),
    ensures
        a == b,
{
    if a < b {
        assert(used.contains(a));
    } else if b < a {
        assert(used.contains(b));
    }
}

/// The least suffix above `after` that no name in use holds.
pub fn next_free_suffix(used: &[u64], after: u64) -> (next: u64)
    requires
        after + used@.len() < u64::MAX,
    ensures
        is_next_free(used@, after, next),
        next == spec_next_free(used@, after),
{
    let mut next: u64 = after + 1;
    loop
        invariant
            after < next,
            after + used@.len() < u64::MAX,
            next <= after + used@.len() + 1,
            forall|k: u64| after < k < next ==> #[trigger] used@.contains(k),
        decreases after + used@.len() + 1 - next,
    {
        if !crate::claim_scan::contains_u64(used, next) {
            proof {
                assert(is_next_free(used@, after, next));
                lemma_next_free_unique(used@, after, next, spec_next_free(used@, after));
            }
            return next;
        }
        proof {
            lemma_range_bound(used@, after as int, next as int);
        }
        next = next + 1;
    }
}

/// The lowest `n >= 1` that no project name `bt_pool_<n>` among `names` uses:
/// the first gap, or one past the largest suffix when there is none.
pub fn next_pool_suffix(names: &[String]) -> (next: u64)
    requires
        names@.len() < usize::MAX,
    ensures
        next >= 1,
        !suffix_used(names@, next as int),
        forall|k: int| 1 <= k < next ==> suffix_used(names@, k),
{
    let used = used_pool_suffixes(names);
    let next = next_free_suffix(used.as_slice(), 0);
    proof {
        assert forall|k: int| 1 <= k < next implies suffix_used(names@, k) by {
            assert(used@.contains(k as u64));
        }
    }
    next
}

/// If every value in `after+1..=n` occurs in `used`, then `used` has at least `n - after` elements.
proof fn lemma_range_bound(used: Seq<u64>, after: int, n: int)
    requires
        0 <= after < n <= u64::MAX,
        forall|k: u64| after < k <= n ==> #[trigger] used.contains(k),
    ensures
        n - after <= used.len(),
{
    let ints = used.map_values(|x: u64| x as int);
    let range = set_int_range(after + 1, n + 1);
    lemma_int_range(after + 1, n + 1);
    assert forall|k: int| #[trigger] range.contains(k) implies ints.to_set().contains(k) by {
        let ku = k as u64;
        assert(used.contains(ku));
        let w = choose|w: int| 0 <= w < used.len() && used[w] == ku;
        assert(ints[w] == k);
    }
    ints.lemma_cardinality_of_set();
    lemma_len_subset(range, ints.to_set());
}

/// serde_json's error type, carried through as it is.
#[verifier::external_type_specification]
#[verifier::external_body]
pub struct ExJsonError(serde_json::Error);

/// Why the project list of `projects.json` could not be read or written.
#[derive(Debug)]
pub enum ProjectsFileError {
    /// The `projects` field is missing or is not an array.
    NotAnArray,
    /// serde_json refuses the text.
    InvalidJson(serde_json::Error),
}

/// The field `key` of a JSON text as serde_json reads it, as a list of
/// integers: `None` if serde_json refuses the text (not JSON, or nested past
/// its depth limit); `Some(None)` if the field is absent or not an array;
/// else each entry as an `i64` where it is one.
pub uninterp spec fn array_field(text: Seq<char>, key: Seq<char>) -> Option<Option<Seq<Option<i64>>>>;

/// The key under which `projects.json` lists the pool.
pub open spec fn projects_key() -> Seq<char> {
    "projects"@
}

/// The view of a read array field.
pub open spec fn entries_view(f: Option<Vec<Option<i64>>>) -> Option<Seq<Option<i64>>> {
    match f {
        Some(v) => Some(v@),
        None => None,
    }
}

/// Each id as an integer entry.
pub open spec fn as_entries(ids: Seq<i64>) -> Seq<Option<i64>> {
    ids.map_values(|x: i64| Some(x))
}

/// serde_json's `from_str` into a `Value`, then indexing by `key`, `as_array`
/// and `as_i64` on each entry: fails exactly when serde_json refuses the
/// text, and otherwise gives the field as `array_field` names it.
#[verifier::external_body]
fn read_array_field(text: &str, key: &str) -> (r: Result<Option<Vec<Option<i64>>>, serde_json::Error>)
    ensures
        r is Err <==> array_field(text@, key@) is None,
        r matches Ok(f) ==> array_field(text@, key@) == Some(entries_view(f)),
{
    match serde_json::from_str::<serde_json::Value>(text) {
        Ok(v) => Ok(v[key].as_array().map(|a| a.iter().map(serde_json::Value::as_i64).collect())),
        Err(e) => Err(e),
    }
}

/// A key that serde_json writes as it is: no control character, quote or
/// backslash, the characters its string escaping replaces.
pub open spec fn plain_key(key: Seq<char>) -> bool {
    forall|i: int| 0 <= i < key.len() ==> (' ' <= #[trigger] key[i] && key[i] != '"' && key[i] != '\\')
}

/// The decimal text of an integer, with `-` before a negative one.
pub open spec fn signed_decimal(x: i64) -> Seq<char> {
    if x < 0 {
        "-"@ + dec_digits((-x) as nat)
    } else {
        dec_digits(x as nat)
    }
}

/// The entries of a pretty-printed array: each on a line of its own,
/// indented by four spaces, separated by commas.
pub open spec fn array_lines(ids: Seq<i64>) -> Seq<char>
    decreases ids.len(),
{
    if ids.len() == 0 {
        Seq::empty()
    } else if ids.len() == 1 {
        "\n    "@ + signed_decimal(ids[0])
    } else {
        array_lines(ids.drop_last()) + ",\n    "@ + signed_decimal(ids.last())
    }
}

/// The text of the object `{key: ids}` pretty-printed with two-space
/// indentation: `[]` for an empty list.
pub open spec fn pretty_array_object(key: Seq<char>, ids: Seq<i64>) -> Seq<char> {
    "{\n  \""@ + key + "\": "@ + (if ids.len() == 0 {
        "[]"@
    } else {
        "["@ + array_lines(ids) + "\n  ]"@
    }) + "\n}"@
}

/// serde_json's `to_string_pretty` of the object `{key: ids}`. It does not
/// fail: it fails only where a `Serialize` impl fails or a map key is not a
/// string, and neither occurs for a string key and integers. For a key that
/// needs no escaping the text is `pretty_array_object`; for any key the
/// text reads back through serde_json as the same list of integers.
#[verifier::external_body]
fn write_array_object(key: &str, ids: &[i64]) -> (r: Result<String, serde_json::Error>)
    ensures
        r is Ok,
        r matches Ok(s) ==> array_field(s@, key@) == Some(Some(as_entries(ids@))),
        r matches Ok(s) ==> (plain_key(key@) ==> s@ == pretty_array_object(key@, ids@)),
{
    serde_json::to_string_pretty(&std::collections::BTreeMap::from([(key, ids)]))
}

/// The project ids of a `projects.json` text: the integer entries of its
/// `projects` array, in order. Fails when serde_json refuses the text, or
/// when the field is absent or not an array.
pub fn project_ids_from_json(text: &str) -> (r: Result<Vec<i64>, ProjectsFileError>)
    ensures
        array_field(text@, projects_key()) is None <==> r matches Err(ProjectsFileError::InvalidJson(_)),
        array_field(text@, projects_key()) == Some(None::<Seq<Option<i64>>>) <==> r matches Err(
            ProjectsFileError::NotAnArray,
        ),
        array_field(text@, projects_key()) matches Some(Some(e)) ==> r matches Ok(ids) && ids@ == integer_entries(e),
{
    match read_array_field(text, "projects") {
        Err(e) => Err(ProjectsFileError::InvalidJson(e)),
        Ok(f) => project_ids_from_entries(f),
    }
}

/// The text of a `projects.json` that lists `ids`:
/// `{"projects": [...]}` pretty-printed, which reads back as `ids`.
pub fn projects_file_text(ids: &[i64]) -> (s: String)
    ensures
        s@ == pretty_array_object(projects_key(), ids@),
        array_field(s@, projects_key()) == Some(Some(as_entries(ids@))),
{
    proof {
        reveal_strlit("projects");
        assert(plain_key(projects_key()));
    }
    match write_array_object("projects", ids) {
        Ok(s) => s,
        Err(_) => {
            proof {
                assert(false);
            }
            String::new()
        },
    }
}

/// A pool file text written from `ids` (its `projects` field holds each id
/// as an integer entry) reads back as exactly `ids`.
pub proof fn law_pool_file_round_trip(ids: Seq<i64>, text: Seq<char>)
    requires
        array_field(text, projects_key()) == Some(Some(as_entries(ids))),
    ensures
        array_field(text, projects_key()) matches Some(Some(e)) && integer_entries(e) == ids,
{
    lemma_integer_entries_all(ids);
}

proof fn lemma_integer_entries_all(ids: Seq<i64>)
    ensures
        integer_entries(as_entries(ids)) == ids,
    decreases ids.len(),
{
    if ids.len() > 0 {
        lemma_integer_entries_all(ids.drop_last());
        assert(as_entries(ids).drop_last() =~= as_entries(ids.drop_last()));
    } else {
        assert(as_entries(ids) =~= Seq::<Option<i64>>::empty());
    }
}

/// The integer entries of a list, in order; other entries are skipped.
pub open spec fn integer_entries(entries: Seq<Option<i64>>) -> Seq<i64>
    decreases entries.len(),
{
    if entries.len() == 0 {
        Seq::empty()
    } else {
        let rest = integer_entries(entries.drop_last());
        match entries.last() {
            Some(v) => rest.push(v),
            None => rest,
        }
    }
}

/// The project ids listed in `projects.json`, from its `projects` field as
/// read from the file: `None` when that field is absent or not an array,
/// else each entry as an integer where it is one. Entries that are not
/// integers are skipped.
pub fn project_ids_from_entries(entries: Option<Vec<Option<i64>>>) -> (r: Result<Vec<i64>, ProjectsFileError>)
    ensures
        entries is None ==> r == Err::<Vec<i64>, ProjectsFileError>(ProjectsFileError::NotAnArray),
        entries matches Some(v) ==> r matches Ok(ids) && ids@ == integer_entries(v@),
{
    match entries {
        None => Err(ProjectsFileError::NotAnArray),
        Some(v) => {
            let mut ids: Vec<i64> = Vec::new();
            for i in 0..v.len()
                invariant
                    ids@ == integer_entries(v@.take(i as int)),
            {
                assert(v@.take(i + 1).drop_last() =~= v@.take(i as int));
                if let Some(x) = v[i] {
                    ids.push(x);
                }
            }
            assert(v@.take(v.len() as int) =~= v@);
            Ok(ids)
        },
    }
}

/// The name of pool project number `n`: `bt_pool_<n>`.
pub fn pool_project_name(n: u64) -> (name: String)
    ensures
        name@ == pool_prefix() + dec_digits(n as nat),
{
    let mut name = String::from_str("bt_pool_");
    let digits = decimal(n);
    name.append(digits.as_str());
    name
}

/// The texts of a list of strings.
pub open spec fn texts(v: Seq<String>) -> Seq<Seq<char>> {
    v.map_values(|s: String| s@)
}

/// Some text, ASCII-lower-cased, contains `needle`.
pub open spec fn any_lower_contains(errors: Seq<Seq<char>>, needle: Seq<char>) -> bool {
    exists|i: int| 0 <= i < errors.len() && has_infix(lower_seq(#[trigger] errors[i]), needle)
}

fn errors_mention(errors: &[String], a: &str, b: &str) -> (r: bool)
    ensures
        r == (any_lower_contains(texts(errors@), a@) || any_lower_contains(texts(errors@), b@)),
{
    let ghost t = texts(errors@);
    for i in 0..errors.len()
        invariant
            t == texts(errors@),
            forall|j: int| 0 <= j < i ==> !has_infix(lower_seq(#[trigger] t[j]), a@) && !has_infix(lower_seq(t[j]), b@),
    {
        let e = chars_of(errors[i].as_str());
        if lower_contains(&e, a) || lower_contains(&e, b) {
            assert(t[i as int] == errors@[i as int]@);
            return true;
        }
    }
    false
}

/// The cloud service refused to create a project because the account hit its
/// project limit for the day.
pub open spec fn spec_hits_daily_limit(errors: Seq<Seq<char>>) -> bool {
    any_lower_contains(errors, "maximum number of projects"@) || any_lower_contains(errors, "daily limit"@)
}

/// Do the errors of a refused creation say that the daily creation limit is hit?
pub fn hits_daily_limit(errors: &[String]) -> (r: bool)
    ensures
        r == spec_hits_daily_limit(texts(errors@)),
{
    errors_mention(errors, "maximum number of projects", "daily limit")
}

/// The errors of a refused deletion say that the project no longer exists.
pub open spec fn spec_is_already_gone(errors: Seq<Seq<char>>) -> bool {
    any_lower_contains(errors, "does not exist"@) || any_lower_contains(errors, "not found"@)
}

/// Do the errors of a refused deletion say that the project no longer exists?
/// Such projects are dropped from the pool, not kept as failed.
pub fn is_already_gone(errors: &[String]) -> (r: bool)
    ensures
        r == spec_is_already_gone(texts(errors@)),
{
    errors_mention(errors, "does not exist", "not found")
}

/// Texts joined with a separator between neighbours.
pub open spec fn joined(parts: Seq<Seq<char>>, sep: Seq<char>) -> Seq<char>
    decreases parts.len(),
{
    if parts.len() == 0 {
        Seq::empty()
    } else if parts.len() == 1 {
        parts[0]
    } else {
        joined(parts.drop_last(), sep) + sep + parts.last()
    }
}

/// The errors of a response joined by `"; "`, or `none_text` when there are none.
pub open spec fn spec_error_summary(errors: Seq<Seq<char>>, none_text: Seq<char>) -> Seq<char> {
    if errors.len() == 0 {
        none_text
    } else {
        joined(errors, "; "@)
    }
}

/// The errors of a response joined by `"; "`, or `none_text` when there are none.
pub fn error_summary(errors: &[String], none_text: &str) -> (s: String)
    ensures
        s@ == spec_error_summary(texts(errors@), none_text@),
{
    if errors.len() == 0 {
        return String::from_str(none_text);
    }
    let ghost t = texts(errors@);
    let mut s = String::from_str(errors[0].as_str());
    assert(t.take(1) =~= seq![t[0]]);
    for i in 1..errors.len()
        invariant
            t == texts(errors@),
            errors.len() >= 1,
            s@ == joined(t.take(i as int), "; "@),
    {
        s.append("; ");
        s.append(errors[i].as_str());
        assert(t.take(i + 1).drop_last() =~= t.take(i as int));
    }
    assert(t.take(errors.len() as int) =~= t);
    s
}

/// Consecutive failed creations after which `create-projects` gives up.
pub const MAX_CONSECUTIVE_FAILURES: usize = 5;

/// Where a `create-projects` run stands.
#[derive(Clone, Copy, PartialEq, Eq, Debug)]
pub struct CreateProgress {
    /// Failed creations since the last success.
    pub consecutive_failures: usize,
    /// Suffix of the next name to try.
    pub current_suffix: u64,
    /// Projects created so far.
    pub created: usize,
}

/// How one creation request ended.
pub enum CreateOutcome {
    /// The service created the project and returned its id.
    Created { project_id: i64 },
    /// The service reported success but returned no project.
    CreatedNothing,
    /// The service refused, with these errors.
    Rejected { errors: Vec<String> },
    /// The request itself failed (transport, decoding).
    Failed,
}

/// What the run does after one creation request.
#[derive(Clone, Copy, PartialEq, Eq, Debug)]
pub enum CreateAction {
    /// Append the new id to the pool file, save it, and go on.
    Record { project_id: i64 },
    /// Count the failure and go on with the next name.
    Continue,
    /// The daily creation limit is hit: stop and report success.
    StopDailyLimit,
    /// Success without a project breaks the protocol: abort with an error.
    AbortNoProject,
    /// Too many consecutive failures: abort with an error.
    AbortTooManyFailures,
}

/// The start of a run whose first free suffix is `first_suffix`.
pub open spec fn create_start(first_suffix: u64) -> CreateProgress {
    CreateProgress { consecutive_failures: 0, current_suffix: first_suffix, created: 0 }
}

/// The rule of one step of `create-projects`, where `used` holds the
/// suffixes the account's names use: every step that goes on moves to the
/// least suffix above the current one that no name uses.
pub open spec fn spec_create_step(p: CreateProgress, o: CreateOutcome, used: Seq<u64>) -> (CreateProgress, CreateAction) {
    let next = spec_next_free(used, p.current_suffix);
    let failed = CreateProgress {
        consecutive_failures: (p.consecutive_failures + 1) as usize,
        current_suffix: next,
        created: p.created,
    };
    let failure_action = if failed.consecutive_failures >= MAX_CONSECUTIVE_FAILURES {
        CreateAction::AbortTooManyFailures
    } else {
        CreateAction::Continue
    };
    match o {
        CreateOutcome::Created { project_id } => (
            CreateProgress { consecutive_failures: 0, current_suffix: next, created: (p.created + 1) as usize },
            CreateAction::Record { project_id },
        ),
        CreateOutcome::CreatedNothing => (p, CreateAction::AbortNoProject),
        CreateOutcome::Rejected { errors } => if spec_hits_daily_limit(texts(errors@)) {
            (p, CreateAction::StopDailyLimit)
        } else {
            (failed, failure_action)
        },
        CreateOutcome::Failed => (failed, failure_action),
    }
}

/// Progress is well-formed between steps: fewer than five consecutive failures.
pub open spec fn create_progress_ok(p: CreateProgress) -> bool {
    p.consecutive_failures < MAX_CONSECUTIVE_FAILURES
}

/// Decide what follows one creation request: a created project is recorded
/// and resets the failure count; a refusal that names the daily limit stops
/// the run; any other failure counts toward the limit of five consecutive
/// failures. Every step that goes on moves to the least suffix above the
/// current one that the account's names (`used`) do not hold, so no name
/// already taken is tried.
pub fn create_step(p: CreateProgress, o: &CreateOutcome, used: &[u64]) -> (r: (CreateProgress, CreateAction))
    requires
        create_progress_ok(p),
        p.current_suffix + used@.len() < u64::MAX,
        p.created < usize::MAX,
    ensures
        r == spec_create_step(p, *o, used@),
        (r.1 is Record || r.1 is Continue) ==> is_next_free(used@, p.current_suffix, r.0.current_suffix),
{
    let next = next_free_suffix(used, p.current_suffix);
    let failed = CreateProgress {
        consecutive_failures: p.consecutive_failures + 1,
        current_suffix: next,
        created: p.created,
    };
    let failure_action = if failed.consecutive_failures >= MAX_CONSECUTIVE_FAILURES {
        CreateAction::AbortTooManyFailures
    } else {
        CreateAction::Continue
    };
    match o {
        CreateOutcome::Created { project_id } => (
            CreateProgress { consecutive_failures: 0, current_suffix: next, created: p.created + 1 },
            CreateAction::Record { project_id: *project_id },
        ),
        CreateOutcome::CreatedNothing => (p, CreateAction::AbortNoProject),
        CreateOutcome::Rejected { errors } => {
            if hits_daily_limit(errors.as_slice()) {
                (p, CreateAction::StopDailyLimit)
            } else {
                (failed, failure_action)
            }
        },
        CreateOutcome::Failed => (failed, failure_action),
    }
}

/// A run that goes on keeps its progress well-formed and moves to the least
/// suffix above the current one that no name on the account uses, so it
/// neither reuses a taken name nor tries one twice; only a created project
/// changes the count of created projects, by one.
pub proof fn law_create_step(p: CreateProgress, o: CreateOutcome, used: Seq<u64>)
    requires
        create_progress_ok(p),
        p.current_suffix + used.len() < u64::MAX,
        p.created < usize::MAX,
    ensures
        ({
            let (q, a) = spec_create_step(p, o, used);
            &&& (a is Record || a is Continue) ==> create_progress_ok(q) && is_next_free(used, p.current_suffix, q.current_suffix)
            &&& (a is Record || a is Continue) ==> q.current_suffix > p.current_suffix && !used.contains(q.current_suffix)
            &&& a is Record ==> q.created == p.created + 1 && q.consecutive_failures == 0
            &&& !(a is Record) ==> q.created == p.created
        }),
{
    lemma_next_free_exists(used, p.current_suffix);
}

/// A free suffix above `after` exists when `used` is short enough.
proof fn lemma_next_free_exists(used: Seq<u64>, after: u64)
    requires
        after + used.len() < u64::MAX,
    ensures
        is_next_free(used, after, spec_next_free(used, after)),
{
    lemma_free_from(used, after, after + 1);
}

/// Searching upward from `n`, past values that all occur in `used`, finds a free one.
proof fn lemma_free_from(used: Seq<u64>, after: u64, n: int)
    requires
        after < n <= after + used.len() + 1,
        after + used.len() < u64::MAX,
        forall|k: u64| after < k < n ==> #[trigger] used.contains(k),
    ensures
        exists|m: u64| is_next_free(used, after, m),
    decreases after + used.len() + 1 - n,
{
    if !used.contains(n as u64) {
        assert(is_next_free(used, after, n as u64));
    } else if n == after + used.len() + 1 {
        lemma_range_bound(used, after as int, n);
    } else {
        lemma_free_from(used, after, n + 1);
    }
}

/// What each outcome leads to: a created project is recorded under its id;
/// a success without a project aborts, and a refusal naming the daily limit
/// stops, both leaving the progress as it was.
pub proof fn law_create_outcomes(p: CreateProgress, project_id: i64, errors: Vec<String>, used: Seq<u64>)
    ensures
        spec_create_step(p, CreateOutcome::Created { project_id }, used).1 == (CreateAction::Record { project_id }),
        spec_create_step(p, CreateOutcome::CreatedNothing, used) == (p, CreateAction::AbortNoProject),
        spec_hits_daily_limit(texts(errors@)) ==> spec_create_step(p, CreateOutcome::Rejected { errors }, used) == (
            p,
            CreateAction::StopDailyLimit,
        ),
{
}

/// A refusal that does not name the daily limit counts as a failed request:
/// one more consecutive failure, the next free suffix, no project created,
/// and the run aborts exactly when that makes five failures in a row.
pub proof fn law_refusal_is_failure(p: CreateProgress, errors: Vec<String>, used: Seq<u64>)
    requires
        create_progress_ok(p),
        p.current_suffix + used.len() < u64::MAX,
        !spec_hits_daily_limit(texts(errors@)),
    ensures
        ({
            let (q, a) = spec_create_step(p, CreateOutcome::Rejected { errors }, used);
            &&& (q, a) == spec_create_step(p, CreateOutcome::Failed, used)
            &&& q.consecutive_failures == p.consecutive_failures + 1
            &&& q.created == p.created
            &&& is_next_free(used, p.current_suffix, q.current_suffix)
            &&& (a == CreateAction::AbortTooManyFailures) == (p.consecutive_failures + 1 >= 5)
            &&& (a == CreateAction::Continue) == (p.consecutive_failures + 1 < 5)
        }),
{
    lemma_next_free_exists(used, p.current_suffix);
}

/// Five failures in a row end the run, and a success in between starts the count anew.
pub proof fn law_five_failures_abort(first_suffix: u64, used: Seq<u64>)
    requires
        first_suffix + used.len() + 5 < u64::MAX,
    ensures
        ({
            let p1 = spec_create_step(create_start(first_suffix), CreateOutcome::Failed, used).0;
            let p2 = spec_create_step(p1, CreateOutcome::Failed, used).0;
            let p3 = spec_create_step(p2, CreateOutcome::Failed, used).0;
            let p4 = spec_create_step(p3, CreateOutcome::Failed, used).0;
            &&& spec_create_step(p3, CreateOutcome::Failed, used).1 == CreateAction::Continue
            &&& spec_create_step(p4, CreateOutcome::Failed, used).1 == CreateAction::AbortTooManyFailures
            &&& spec_create_step(p4, CreateOutcome::Created { project_id: 1 }, used).0.consecutive_failures == 0
        }),
{
}

/// How one deletion request ended.
pub enum DeleteOutcome {
    /// The service deleted the project.
    Deleted,
    /// The service refused, with these errors.
    Rejected { errors: Vec<String> },
    /// The request itself failed, with this message.
    Failed { message: String },
}

/// The running tally of a `delete-projects` run.
pub struct DeleteTally {
    pub deleted_ok: usize,
    pub already_gone: usize,
    /// Projects whose deletion failed, each with the reason.
    pub failed: Vec<(i64, String)>,
}

/// Ids of the failed deletions, in order.
pub open spec fn failed_ids(failed: Seq<(i64, String)>) -> Seq<i64> {
    failed.map_values(|f: (i64, String)| f.0)
}

/// What a deletion outcome adds to the tally: `0` deleted, `1` already gone,
/// `2` failed with the given reason.
pub open spec fn delete_class(o: DeleteOutcome) -> int {
    match o {
        DeleteOutcome::Deleted => 0,
        DeleteOutcome::Rejected { errors } => if spec_is_already_gone(texts(errors@)) {
            1
        } else {
            2
        },
        DeleteOutcome::Failed { .. } => 2,
    }
}

/// The reason recorded for a failed deletion.
pub open spec fn failure_reason(o: DeleteOutcome) -> Seq<char> {
    match o {
        DeleteOutcome::Deleted => Seq::empty(),
        DeleteOutcome::Rejected { errors } => spec_error_summary(texts(errors@), "(no error message)"@),
        DeleteOutcome::Failed { message } => message@,
    }
}

/// The ids of the failed deletions after recording how the deletion of
/// `project_id` ended: a failure adds it at the end; nothing else changes them.
pub open spec fn failed_after(ids: Seq<i64>, project_id: i64, o: DeleteOutcome) -> Seq<i64> {
    if delete_class(o) == 2 {
        ids.push(project_id)
    } else {
        ids
    }
}

impl DeleteTally {
    /// An empty tally.
    pub fn new() -> (t: DeleteTally)
        ensures
            t.deleted_ok == 0,
            t.already_gone == 0,
            t.failed@.len() == 0,
    {
        DeleteTally { deleted_ok: 0, already_gone: 0, failed: Vec::new() }
    }

    /// Record how the deletion of `project_id` ended: a deletion counts as
    /// done; a refusal saying the project no longer exists counts as already
    /// gone; anything else is kept as failed with its reason.
    pub fn record(&mut self, project_id: i64, o: DeleteOutcome)
        requires
            old(self).deleted_ok < usize::MAX,
            old(self).already_gone < usize::MAX,
        ensures
            delete_class(o) == 0 ==> final(self).deleted_ok == old(self).deleted_ok + 1
                && final(self).already_gone == old(self).already_gone && final(self).failed@ == old(self).failed@,
            delete_class(o) == 1 ==> final(self).already_gone == old(self).already_gone + 1
                && final(self).deleted_ok == old(self).deleted_ok && final(self).failed@ == old(self).failed@,
            delete_class(o) == 2 ==> final(self).deleted_ok == old(self).deleted_ok
                && final(self).already_gone == old(self).already_gone
                && final(self).failed@.len() == old(self).failed@.len() + 1
                && final(self).failed@.drop_last() == old(self).failed@
                && final(self).failed@.last().0 == project_id
                && final(self).failed@.last().1@ == failure_reason(o),
            failed_ids(final(self).failed@) == failed_after(failed_ids(old(self).failed@), project_id, o),
    {
        match o {
            DeleteOutcome::Deleted => {
                self.deleted_ok = self.deleted_ok + 1;
            },
            DeleteOutcome::Rejected { errors } => {
                if is_already_gone(errors.as_slice()) {
                    self.already_gone = self.already_gone + 1;
                } else {
                    let msg = error_summary(errors.as_slice(), "(no error message)");
                    self.failed.push((project_id, msg));
                    assert(self.failed@.drop_last() =~= old(self).failed@);
                    assert(failed_ids(self.failed@) =~= failed_ids(old(self).failed@).push(project_id));
                }
            },
            DeleteOutcome::Failed { message } => {
                self.failed.push((project_id, message));
                assert(self.failed@.drop_last() =~= old(self).failed@);
                assert(failed_ids(self.failed@) =~= failed_ids(old(self).failed@).push(project_id));
            },
        }
    }
}

/// The pool left after a `delete-projects` run: the kept projects, then the
/// projects whose deletion failed, so they can be retried. Deleted projects
/// and projects that were already gone leave the pool.
pub fn pool_after_delete(kept: &[i64], tally: &DeleteTally) -> (pool: Vec<i64>)
    ensures
        pool@ == kept@ + failed_ids(tally.failed@),
{
    let mut pool: Vec<i64> = Vec::new();
    for i in 0..kept.len()
        invariant
            pool@ == kept@.take(i as int),
    {
        pool.push(kept[i]);
        assert(kept@.take(i + 1) =~= kept@.take(i as int).push(kept@[i as int]));
    }
    assert(kept@.take(kept.len() as int) =~= kept@);
    let ghost f = failed_ids(tally.failed@);
    for j in 0..tally.failed.len()
        invariant
            f == failed_ids(tally.failed@),
            pool@ == kept@ + f.take(j as int),
    {
        pool.push(tally.failed[j].0);
        assert(f.take(j + 1) =~= f.take(j as int).push(f[j as int]));
    }
    assert(f.take(tally.failed.len() as int) =~= f);
    pool
}

/// How `delete-projects` splits the pool: the first `keep` ids stay, the rest
/// are deleted. `None` when `keep` covers the whole pool and nothing is deleted.
pub fn split_for_delete(pids: &[i64], keep: usize) -> (r: Option<(Vec<i64>, Vec<i64>)>)
    ensures
        keep >= pids@.len() ==> r is None,
        keep < pids@.len() ==> (r matches Some((kept, doomed)) && kept@ == pids@.take(keep as int)
            && doomed@ == pids@.skip(keep as int)),
{
    if keep >= pids.len() {
        return None;
    }
    let mut kept: Vec<i64> = Vec::new();
    let mut doomed: Vec<i64> = Vec::new();
    for i in 0..pids.len()
        invariant
            keep < pids@.len(),
            i <= keep ==> kept@ == pids@.take(i as int) && doomed@.len() == 0,
            i > keep ==> kept@ == pids@.take(keep as int) && doomed@ == pids@.subrange(keep as int, i as int),
    {
        if i < keep {
            kept.push(pids[i]);
            assert(pids@.take(i + 1) =~= pids@.take(i as int).push(pids@[i as int]));
        } else {
            doomed.push(pids[i]);
            assert(pids@.subrange(keep as int, i + 1) =~= pids@.subrange(keep as int, i as int).push(pids@[i as int]));
        }
    }
    assert(pids@.subrange(keep as int, pids@.len() as int) =~= pids@.skip(keep as int));
    Some((kept, doomed))
}

/// Where a deletion outcome leaves a project in the pool that a run writes
/// back (the kept ids, then the failed ones): a failed deletion keeps the
/// project, at the end, so it can be retried; a deleted project, or one that
/// was already gone, is not in it unless it was kept or had failed before.
/// The kept ids always come first, in order.
pub proof fn law_delete_outcome_in_pool(kept: Seq<i64>, failed_before: Seq<i64>, project_id: i64, o: DeleteOutcome)
    ensures
        ({
            let pool = kept + failed_after(failed_before, project_id, o);
            &&& pool.take(kept.len() as int) == kept
            &&& delete_class(o) == 2 ==> pool.last() == project_id && pool.contains(project_id)
            &&& delete_class(o) != 2 && !kept.contains(project_id) && !failed_before.contains(project_id)
                ==> !pool.contains(project_id)
        }),
{
    let pool = kept + failed_after(failed_before, project_id, o);
    assert(pool.take(kept.len() as int) =~= kept);
    if delete_class(o) == 2 {
        assert(pool[pool.len() - 1] == project_id);
    } else if !kept.contains(project_id) && !failed_before.contains(project_id) {
        assert forall|i: int| 0 <= i < pool.len() implies pool[i] != project_id by {
            if i < kept.len() {
                assert(pool[i] == kept[i]);
            } else {
                assert(pool[i] == failed_before[i - kept.len()]);
            }
        }
    }
}

/// Strictly increasing.
pub open spec fn strictly_sorted(s: Seq<i64>) -> bool {
    forall|i: int, j: int| 0 <= i < j < s.len() ==> s[i] < s[j]
}

/// Insert `x` into a strictly increasing list unless it is there already.
fn insert_sorted_unique(v: &mut Vec<i64>, x: i64)
    requires
        strictly_sorted(old(v)@),
    ensures
        strictly_sorted(final(v)@),
        final(v)@.to_set() == old(v)@.to_set().insert(x),
{
    let mut k: usize = 0;
    while k < v.len() && v[k] < x
        invariant
            k <= v.len(),
            forall|j: int| 0 <= j < k ==> v@[j] < x,
        decreases v.len() - k,
    {
        k = k + 1;
    }
    if k < v.len() && v[k] == x {
        assert(v@.to_set().insert(x) =~= v@.to_set());
        return;
    }
    let ghost before = v@;
    v.insert(k, x);
    assert(v@ =~= before.take(k as int).push(x) + before.skip(k as int));
    assert(v@[k as int] == x);
    assert forall|y: i64| v@.contains(y) implies before.contains(y) || y == x by {
        let w = choose|w: int| 0 <= w < v@.len() && v@[w] == y;
        if w < k {
            assert(before[w] == y);
        } else if w > k {
            assert(before[w - 1] == y);
        }
    }
    assert forall|y: i64| before.contains(y) implies v@.contains(y) by {
        let w = choose|w: int| 0 <= w < before.len() && before[w] == y;
        if w < k {
            assert(v@[w] == y);
        } else {
            assert(v@[w + 1] == y);
        }
    }
    assert(v@.to_set() =~= before.to_set().insert(x));
}

/// The ids of `a` that are not in `b`, each once, in increasing order.
pub fn sorted_difference(a: &[i64], b: &[i64]) -> (d: Vec<i64>)
    ensures
        strictly_sorted(d@),
        d@.to_set() == a@.to_set().difference(b@.to_set()),
{
    let mut d: Vec<i64> = Vec::new();
    for i in 0..a.len()
        invariant
            strictly_sorted(d@),
            d@.to_set() == a@.take(i as int).to_set().difference(b@.to_set()),
    {
        let ghost before = d@;
        if !crate::claim_scan::contains_id(b, a[i]) {
            insert_sorted_unique(&mut d, a[i]);
        }
        assert(a@.take(i + 1) =~= a@.take(i as int).push(a@[i as int]));
        let ghost t1 = a@.take(i + 1);
        let ghost t0 = a@.take(i as int);
        assert forall|y: i64| t1.contains(y) <==> (t0.contains(y) || y == a@[i as int]) by {
            if t1.contains(y) {
                let w = choose|w: int| 0 <= w < t1.len() && t1[w] == y;
                if w < i {
                    assert(t0[w] == y);
                }
            }
            if t0.contains(y) {
                let w = choose|w: int| 0 <= w < t0.len() && t0[w] == y;
                assert(t1[w] == y);
            }
            assert(t1[i as int] == a@[i as int]);
        }
        assert(a@.take(i + 1).to_set() =~= a@.take(i as int).to_set().insert(a@[i as int]));
        assert(d@.to_set() =~= a@.take(i + 1).to_set().difference(b@.to_set()));
    }
    assert(a@.take(a.len() as int) =~= a@);
    d
}

/// Keeps the ids that are not in `drop`.
pub open spec fn not_in(drop: Seq<i64>) -> spec_fn(i64) -> bool {
    |p: i64| !drop.contains(p)
}

/// The ids of `local` that are not in `drop`, in their order, duplicates kept.
pub fn without_ids(local: &[i64], drop: &[i64]) -> (r: Vec<i64>)
    ensures
        r@ == local@.filter(not_in(drop@)),
{
    let mut r: Vec<i64> = Vec::new();
    for i in 0..local.len()
        invariant
            r@ == local@.take(i as int).filter(not_in(drop@)),
    {
        let x = local[i];
        assert(local@.take(i + 1) =~= local@.take(i as int).push(x));
        proof {
            local@.take(i as int).lemma_filter_push(x, not_in(drop@));
        }
        assert(not_in(drop@)(x) == !drop@.contains(x));
        let keep_it = !crate::claim_scan::contains_id(drop, x);
        if keep_it {
            r.push(x);
        }
        assert(local@.take(i + 1).filter(not_in(drop@)) == if keep_it {
            local@.take(i as int).filter(not_in(drop@)).push(x)
        } else {
            local@.take(i as int).filter(not_in(drop@))
        });
    }
    assert(local@.take(local.len() as int) =~= local@);
    r
}

/// How `projects.json` and the account's project list differ.
pub struct Drift {
    /// Ids in the file that the account does not have, increasing.
    pub orphans: Vec<i64>,
    /// Ids the account has that the file does not list, increasing.
    pub missing: Vec<i64>,
}

/// Compare the pool file with the account's project list.
pub fn project_drift(local: &[i64], remote: &[i64]) -> (d: Drift)
    ensures
        strictly_sorted(d.orphans@),
        strictly_sorted(d.missing@),
        d.orphans@.to_set() == local@.to_set().difference(remote@.to_set()),
        d.missing@.to_set() == remote@.to_set().difference(local@.to_set()),
{
    Drift { orphans: sorted_difference(local, remote), missing: sorted_difference(remote, local) }
}

/// After orphans are pruned, every id left in the file is on the account, and
/// every id of the file that is on the account is still there.
pub proof fn law_prune_orphans(local: Seq<i64>, remote: Seq<i64>, orphans: Seq<i64>)
    requires
        orphans.to_set() == local.to_set().difference(remote.to_set()),
    ensures
        forall|p: i64| local.filter(not_in(orphans)).contains(p) <==> (local.contains(p) && remote.contains(p)),
{
    let kept = local.filter(not_in(orphans));
    assert forall|p: i64| kept.contains(p) <==> (local.contains(p) && remote.contains(p)) by {
        if kept.contains(p) {
            local.lemma_filter_contains_rev(not_in(orphans), p);
        }
        if local.contains(p) && remote.contains(p) {
            assert(!orphans.to_set().contains(p));
            let w = choose|w: int| 0 <= w < local.len() && local[w] == p;
            local.lemma_filter_contains(not_in(orphans), w);
        }
        if kept.contains(p) {
            assert(!orphans.contains(p));
            assert(!orphans.to_set().contains(p));
        }
    }
}

/// The error when the account's project list cannot be read:
/// `read_project failed: {errors joined by "; ", or "(no message)"}`.
pub fn read_failure_message(errors: &[String]) -> (m: String)
    ensures
        m@ == "read_project failed: "@ + spec_error_summary(texts(errors@), "(no message)"@),
{
    let summary = error_summary(errors, "(no message)");
    String::from_str("read_project failed: ").concat(summary.as_str())
}

/// A character of Unicode's `White_Space` property.
pub open spec fn is_white_space(c: char) -> bool {
    ('\u{9}' <= c && c <= '\u{d}') || c == ' ' || c == '\u{85}' || c == '\u{a0}' || c == '\u{1680}'
        || ('\u{2000}' <= c && c <= '\u{200a}') || c == '\u{2028}' || c == '\u{2029}' || c == '\u{202f}'
        || c == '\u{205f}' || c == '\u{3000}'
}

/// A text without its leading white space.
pub open spec fn trim_start(s: Seq<char>) -> Seq<char>
    decreases s.len(),
{
    if s.len() > 0 && is_white_space(s[0]) {
        trim_start(s.drop_first())
    } else {
        s
    }
}

/// A text without its trailing white space.
pub open spec fn trim_end(s: Seq<char>) -> Seq<char>
    decreases s.len(),
{
    if s.len() > 0 && is_white_space(s.last()) {
        trim_end(s.drop_last())
    } else {
        s
    }
}

/// A text with leading and trailing white space removed.
pub open spec fn trimmed(s: Seq<char>) -> Seq<char> {
    trim_end(trim_start(s))
}

/// std's `str::trim`: removes the leading and trailing characters of the
/// Unicode `White_Space` property.
#[verifier::external_body]
fn trim_text(s: &str) -> (r: &str)
    ensures
        r@ == trimmed(s@),
{
    s.trim()
}

/// The answer to the delete prompt confirms: `y` or `yes` in any ASCII case,
/// surrounding white space ignored.
pub open spec fn spec_confirms(answer: Seq<char>) -> bool {
    lower_seq(trimmed(answer)) == "y"@ || lower_seq(trimmed(answer)) == "yes"@
}

/// Does the answer to the delete prompt confirm?
pub fn confirms(answer: &str) -> (r: bool)
    ensures
        r == spec_confirms(answer@),
{
    let t = trim_text(answer);
    let lowered = crate::text::lower_all(&chars_of(t));
    let y = chars_of("y");
    let yes = chars_of("yes");
    same_chars(&lowered, &y) || same_chars(&lowered, &yes)
}

fn same_chars(a: &Vec<char>, b: &Vec<char>) -> (r: bool)
    ensures
        r == (a@ == b@),
{
    if a.len() != b.len() {
        return false;
    }
    for i in 0..a.len()
        invariant
            a.len() == b.len(),
            forall|j: int| 0 <= j < i ==> a@[j] == b@[j],
    {
        if a[i] != b[i] {
            assert(a@[i as int] != b@[i as int]);
            return false;
        }
    }
    assert(a@ =~= b@);
    true
}

} // verus!
