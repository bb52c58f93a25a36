//! Names of tries: relative ages, free directory names, versioned names.
use vstd::prelude::*;
use vstd::string::StringExecFns;
use crate::text::{decimal, push_decimal, push_range};
use crate::paths::{entry_path, join_path, path_exists};

verus! {

// ---------------------------------------------------------------------------
// Relative age of a directory
// ---------------------------------------------------------------------------

/// How long ago something happened, `secs` whole seconds back: under a minute
/// is "just now", then whole minutes, hours, days and weeks.
pub open spec fn relative_label(secs: nat) -> Seq<char> {
    if secs < 60 {
        "just now"@
    } else if secs < 3600 {
        decimal(secs / 60) + "m ago"@
    } else if secs < 86400 {
        decimal(secs / 3600) + "h ago"@
    } else if secs < 604800 {
        decimal(secs / 86400) + "d ago"@
    } else {
        decimal(secs / 604800) + "w ago"@
    }
}

/// The label for an age of `secs` seconds.
pub fn relative_time_from_secs(secs: u64) -> (r: String)
    ensures
        r@ == relative_label(secs as nat),
{
    if secs < 60 {
        return String::from_str("just now");
    }
    let (n, unit) = if secs < 3600 {
        (secs / 60, "m ago")
    } else if secs < 86400 {
        (secs / 3600, "h ago")
    } else if secs < 604800 {
        (secs / 86400, "d ago")
    } else {
        (secs / 604800, "w ago")
    };
    let mut r = String::new();
    push_decimal(&mut r, n);
    r.append(unit);
    proof {
        reveal_strlit("just now");
    }
    r
}

#[verifier::external_type_specification]
#[verifier::external_body]
pub struct ExSystemTime(std::time::SystemTime);

#[verifier::external_type_specification]
#[verifier::external_body]
pub struct ExSystemTimeError(std::time::SystemTimeError);

/// The current time (`SystemTime::now`). Nothing is stated of it: it is the
/// clock's.
#[verifier::external_body]
fn clock_now() -> (r: std::time::SystemTime) {
    std::time::SystemTime::now()
}

/// How long after `earlier` the time `later` is (`SystemTime::duration_since`);
/// an error when `earlier` is the later one. Nothing is stated of the
/// outcome: the two times are opaque here.
#[verifier::external_body]
fn time_between(later: &std::time::SystemTime, earlier: &std::time::SystemTime) -> (r: Result<
    core::time::Duration,
    std::time::SystemTimeError,
>) {
    later.duration_since(*earlier)
}

/// The whole seconds of `d` (`Duration::as_secs`). Nothing is stated of the
/// value: the duration is opaque here.
#[verifier::external_body]
fn whole_seconds(d: &core::time::Duration) -> (r: u64) {
    d.as_secs()
}

/// Whole seconds from `mtime` to now, zero when `mtime` lies in the future.
pub fn seconds_since(mtime: &std::time::SystemTime) -> (r: u64) {
    let now = clock_now();
    match time_between(&now, mtime) {
        Ok(d) => whole_seconds(&d),
        Err(_) => 0,
    }
}

/// How long ago `mtime` was, as the selector shows it.
pub fn relative_time(mtime: std::time::SystemTime) -> (r: String)
    ensures
        exists|secs: u64| r@ == relative_label(secs as nat),
{
    let secs = seconds_since(&mtime);
    relative_time_from_secs(secs)
}

// ---------------------------------------------------------------------------
// Free names
// ---------------------------------------------------------------------------

/// The most suffixes `unique_dir_name` tries: its counter is an `i32`.
pub const MAX_SUFFIX: u32 = 2147483647;

/// Candidate `k` for a free name: `base` itself, then `base-2`, `base-3`, ...
pub open spec fn dir_candidate(base: Seq<char>, k: nat) -> Seq<char> {
    if k == 0 {
        base
    } else {
        base + "-"@ + decimal(k + 1)
    }
}

/// `taken` answered `b` for some string reading `s`.
pub open spec fn answered<F: Fn(&String) -> bool>(taken: F, s: Seq<char>, b: bool) -> bool {
    exists|x: String| x@ == s && #[trigger] taken.ensures((&x,), b)
}

fn dir_candidate_string(base: &str, k: u32) -> (r: String)
    requires
        k < MAX_SUFFIX,
    ensures
        r@ == dir_candidate(base@, k as nat),
{
    let mut r = String::from_str(base);
    if k > 0 {
        r.append("-");
        push_decimal(&mut r, (k + 1) as u64);
    }
    r
}

/// The first of `base`, `base-2`, `base-3`, ... that `taken` rejects, or
/// `None` when every candidate up to the counter's limit is taken.
pub fn unique_dir_name_with<F: Fn(&String) -> bool>(base: &str, taken: F) -> (r: Option<String>)
    requires
        forall|s: &String| taken.requires((s,)),
    ensures
        match r {
            Some(name) => exists|k: nat|
                {
                    &&& k < MAX_SUFFIX
                    &&& name@ == dir_candidate(base@, k)
                    &&& answered(taken, name@, false)
                    &&& forall|j: nat| j < k ==> answered(taken, #[trigger] dir_candidate(base@, j), true)
                },
            None => forall|j: nat| j < MAX_SUFFIX ==> answered(taken, #[trigger] dir_candidate(base@, j), true),
        },
{
    let mut k: u32 = 0;
    while k < MAX_SUFFIX
        invariant
            k <= MAX_SUFFIX,
            forall|s: &String| taken.requires((s,)),
            forall|j: nat| j < k ==> answered(taken, #[trigger] dir_candidate(base@, j), true),
        decreases MAX_SUFFIX - k,
    {
        let cand = dir_candidate_string(base, k);
        let t = taken(&cand);
        if !t {
            assert(answered(taken, cand@, false));
            return Some(cand);
        }
        assert(answered(taken, dir_candidate(base@, k as nat), true));
        k += 1;
    }
    None
}


// ---------------------------------------------------------------------------
// Versioned names
// ---------------------------------------------------------------------------

/// What the pattern `^(.*?)(\d+)$` captures in `s`: the text before the
/// longest run of trailing digits, and that run.
pub uninterp spec fn numeric_suffix_split(s: Seq<char>) -> Option<(Seq<char>, Seq<char>)>;

/// Splits `s` with the pattern `^(.*?)(\d+)$` (`regex::Regex::captures`).
/// The contract names the captures and states what the anchored pattern
/// guarantees: the two groups make up `s`, and the digits are not empty.
#[verifier::external_body]
fn numeric_suffix(s: &str) -> (r: Option<(String, String)>)
    ensures
        match r {
            Some(p) => {
                &&& numeric_suffix_split(s@) == Some((p.0@, p.1@))
                &&& p.0@ + p.1@ == s@
                &&& p.1@.len() > 0
            },
            None => numeric_suffix_split(s@) == None::<(Seq<char>, Seq<char>)>,
        },
{
    let re = regex::Regex::new(r"^(.*?)(\d+)$").unwrap();
    re.captures(s).map(
        |c| (
            c.get(1).map_or("", |m| m.as_str()).to_string(),
            c.get(2).map_or("", |m| m.as_str()).to_string(),
        ),
    )
}

/// An ASCII digit.
pub open spec fn is_digit(c: char) -> bool {
    '0' <= c && c <= '9'
}

/// The number that the ASCII digits `s` write.
pub open spec fn digits_value(s: Seq<char>) -> nat
    decreases s.len(),
{
    if s.len() == 0 {
        0
    } else {
        digits_value(s.drop_last()) * 10 + (s.last() as nat - 48) as nat
    }
}

/// `s` without one leading `+`.
pub open spec fn unsigned_body(s: Seq<char>) -> Seq<char> {
    if s.len() > 0 && s[0] == '+' {
        s.skip(1)
    } else {
        s
    }
}

/// Every character of `s` is an ASCII digit.
pub open spec fn all_digits(s: Seq<char>) -> bool {
    forall|i: int| 0 <= i < s.len() ==> is_digit(#[trigger] s[i])
}

/// What `str::parse::<u64>` gives for `s`: an optional `+`, then one or more
/// ASCII digits whose value fits.
pub open spec fn parsed_u64(s: Seq<char>) -> Option<u64> {
    let body = unsigned_body(s);
    if body.len() > 0 && all_digits(body) && digits_value(body) <= u64::MAX {
        Some(digits_value(body) as u64)
    } else {
        None
    }
}

proof fn lemma_digits_value_step(s: Seq<char>, i: int)
    requires
        0 <= i < s.len(),
    ensures
        digits_value(s.take(i + 1)) == digits_value(s.take(i)) * 10 + (s[i] as nat - 48) as nat,
{
    assert(s.take(i + 1).drop_last() =~= s.take(i));
}

proof fn lemma_digits_value_grows(s: Seq<char>, i: int)
    requires
        0 <= i <= s.len(),
        forall|k: int| 0 <= k < s.len() ==> is_digit(#[trigger] s[k]),
    ensures
        digits_value(s.take(i)) <= digits_value(s),
    decreases s.len() - i,
{
    if i < s.len() {
        lemma_digits_value_step(s, i);
        lemma_digits_value_grows(s, i + 1);
    } else {
        assert(s.take(i) =~= s);
    }
}

/// `str::parse::<u64>`, written out.
pub fn parse_u64(s: &str) -> (r: Option<u64>)
    ensures
        r == parsed_u64(s@),
{
    let cs = crate::text::chars_of(s);
    let mut start: usize = 0;
    if cs.len() > 0 && cs[0] == '+' {
        start = 1;
    }
    let ghost body = cs@.skip(start as int);
    assert(body =~= unsigned_body(s@));
    if start >= cs.len() {
        assert(body.len() == 0);
        return None;
    }
    let mut v: u64 = 0;
    let mut i: usize = start;
    while i < cs.len()
        invariant
            start <= i <= cs.len(),
            body == cs@.skip(start as int),
            body == unsigned_body(s@),
            cs@ == s@,
            forall|k: int| 0 <= k < i - start ==> is_digit(#[trigger] body[k]),
            v as nat == digits_value(body.take(i - start)),
        decreases cs.len() - i,
    {
        let c = cs[i];
        if !('0' <= c && c <= '9') {
            assert(!is_digit(body[i - start]));
            assert(!all_digits(body));
            return None;
        }
        proof {
            lemma_digits_value_step(body, i - start);
        }
        let d = (c as u32 - 48) as u64;
        if v > (u64::MAX - d) / 10 {
            proof {
                assert(v * 10 + d > u64::MAX) by (nonlinear_arith)
                    requires
                        v > (u64::MAX - d) / 10,
                        d <= 9,
                ;
                if all_digits(body) {
                    lemma_digits_value_grows(body, i - start + 1);
                    assert(digits_value(body) > u64::MAX);
                }
            }
            return None;
        }
        v = v * 10 + d;
        i += 1;
    }
    assert(body.take(i - start) =~= body);
    Some(v)
}


/// `base` under a date: `date-base`.
pub open spec fn dated(date: Seq<char>, base: Seq<char>) -> Seq<char> {
    date + "-"@ + base
}

/// The dated name with number `n` after `stem`.
pub open spec fn versioned_name(date: Seq<char>, stem: Seq<char>, n: nat) -> Seq<char> {
    dated(date, stem + decimal(n))
}

/// The views of an optional string.
pub open spec fn opt_view(o: Option<String>) -> Option<Seq<char>> {
    match o {
        Some(s) => Some(s@),
        None => None,
    }
}

/// `r` is the first `stem` numbered above `num` whose dated name `taken`
/// rejects; `None` when every number up to `u64::MAX` is taken.
pub open spec fn numbered_choice<F: Fn(&String) -> bool>(
    taken: F,
    date: Seq<char>,
    stem: Seq<char>,
    num: nat,
    r: Option<Seq<char>>,
) -> bool {
    match r {
        Some(name) => exists|n: nat|
            {
                &&& num < n <= u64::MAX
                &&& name == stem + decimal(n)
                &&& answered(taken, versioned_name(date, stem, n), false)
                &&& forall|m: nat| num < m < n ==> answered(taken, #[trigger] versioned_name(date, stem, m), true)
            },
        None => forall|m: nat|
            num < m <= u64::MAX ==> answered(taken, #[trigger] versioned_name(date, stem, m), true),
    }
}

/// `r` is `base`, `base-2`, `base-3`, ...: the first whose dated name `taken`
/// rejects; `None` when every candidate is taken.
pub open spec fn suffixed_choice<F: Fn(&String) -> bool>(
    taken: F,
    date: Seq<char>,
    base: Seq<char>,
    r: Option<Seq<char>>,
) -> bool {
    match r {
        Some(name) => exists|k: nat|
            {
                &&& k < MAX_SUFFIX
                &&& name == dir_candidate(base, k)
                &&& answered(taken, dir_candidate(dated(date, base), k), false)
                &&& forall|j: nat| j < k ==> answered(taken, #[trigger] dir_candidate(dated(date, base), j), true)
            },
        None => forall|j: nat|
            j < MAX_SUFFIX ==> answered(taken, #[trigger] dir_candidate(dated(date, base), j), true),
    }
}

proof fn lemma_undated_candidate(date: Seq<char>, base: Seq<char>, k: nat)
    ensures
        dir_candidate(dated(date, base), k).len() >= date.len() + 1,
        dir_candidate(dated(date, base), k).skip(date.len() + 1int) == dir_candidate(base, k),
        dir_candidate(dated(date, base), k).take(date.len() + 1int) == date + "-"@,
{
    reveal_strlit("-");
    assert(dir_candidate(dated(date, base), k).skip(date.len() + 1int) =~= dir_candidate(base, k));
    assert(dir_candidate(dated(date, base), k).take(date.len() + 1int) =~= date + "-"@);
}

pub(crate) fn dated_string(date: &str, base: &str) -> (r: String)
    ensures
        r@ == dated(date@, base@),
{
    let mut r = String::from_str(date);
    r.append("-");
    r.append(base);
    r
}

/// `r` is what resolving `base` under `date` gives when `taken` answers
/// whether a dated name is taken: `base` itself when `date-base` is free;
/// for a `base` ending in digits, the same stem with the next free number;
/// otherwise the first free `base-2`, `base-3`, ...; `None` when the counter
/// runs out.
pub open spec fn resolved<F: Fn(&String) -> bool>(taken: F, date: Seq<char>, base: Seq<char>, r: Option<Seq<char>>) -> bool {
    ||| answered(taken, dated(date, base), false) && r == Some(base)
    ||| answered(taken, dated(date, base), true) && match numeric_suffix_split(base) {
        Some(parts) => numbered_choice(
            taken,
            date,
            parts.0,
            match parsed_u64(parts.1) {
                Some(v) => v as nat,
                None => 0,
            },
            r,
        ),
        None => suffixed_choice(taken, date, base, r),
    }
}

/// A name that resolution gives is one of the versions of `base`.
pub proof fn lemma_resolved_versioned<F: Fn(&String) -> bool>(taken: F, date: Seq<char>, base: Seq<char>, n: Seq<char>)
    requires
        resolved(taken, date, base, Some(n)),
    ensures
        versioned_from(base, n),
{
}

/// A free name for a new try under `date_prefix`, as `base` and the names
/// that `taken` already holds decide: `base` itself when `date_prefix-base`
/// is free; for a `base` ending in digits, the same stem with the next free
/// number; otherwise `base-2`, `base-3`, ... `None` when the counter runs out.
pub fn resolve_unique_name_with<F: Fn(&String) -> bool>(
    date_prefix: &str,
    base: &str,
    taken: F,
) -> (r: Option<String>)
    requires
        forall|s: &String| taken.requires((s,)),
    ensures
        resolved(taken, date_prefix@, base@, opt_view(r)),
{
    let initial = dated_string(date_prefix, base);
    let first = taken(&initial);
    if !first {
        assert(answered(taken, initial@, false));
        return Some(String::from_str(base));
    }
    assert(answered(taken, initial@, true));
    match numeric_suffix(base) {
        Some(parts) => {
            let num: u64 = match parse_u64(parts.1.as_str()) {
                Some(v) => v,
                None => 0,
            };
            let mut n: u64 = num;
            while n < u64::MAX
                invariant
                    num <= n <= u64::MAX,
                    forall|s: &String| taken.requires((s,)),
                    numeric_suffix_split(base@) == Some((parts.0@, parts.1@)),
                    num as nat == match parsed_u64(parts.1@) {
                        Some(v) => v as nat,
                        None => 0,
                    },
                    answered(taken, dated(date_prefix@, base@), true),
                    forall|m: nat|
                        num < m <= n ==> answered(taken, #[trigger] versioned_name(date_prefix@, parts.0@, m), true),
                decreases u64::MAX - n,
            {
                n += 1;
                let mut cand_base = parts.0.clone();
                push_decimal(&mut cand_base, n);
                let cand = dated_string(date_prefix, cand_base.as_str());
                assert(cand@ == versioned_name(date_prefix@, parts.0@, n as nat));
                if !taken(&cand) {
                    assert(answered(taken, cand@, false));
                    assert(numeric_suffix_split(base@) == Some((parts.0@, parts.1@)));
                    assert(cand_base@ == parts.0@ + decimal(n as nat));
                    assert(numbered_choice(taken, date_prefix@, parts.0@, num as nat, Some(cand_base@)));
                    return Some(cand_base);
                }
                assert(answered(taken, cand@, true));
            }
            assert(numbered_choice(taken, date_prefix@, parts.0@, num as nat, None));
            None
        },
        None => {
            let full = unique_dir_name_with(initial.as_str(), taken);
            match full {
                Some(name) => {
                    let ghost k = choose|k: nat|
                        {
                            &&& k < MAX_SUFFIX
                            &&& name@ == dir_candidate(initial@, k)
                            &&& answered(taken, name@, false)
                            &&& forall|j: nat| j < k ==> answered(taken, #[trigger] dir_candidate(initial@, j), true)
                        };
                    proof {
                        lemma_undated_candidate(date_prefix@, base@, k);
                    }
                    let cs = crate::text::chars_of(name.as_str());
                    let dc = crate::text::chars_of(date_prefix);
                    assert(cs@.len() >= dc@.len() + 1);
                    assert(dc.len() < cs.len());
                    let skip = dc.len() + 1;
                    let mut r = String::new();
                    push_range(&mut r, &cs, skip, cs.len());
                    assert(r@ =~= dir_candidate(base@, k));
                    Some(r)
                },
                None => None,
            }
        },
    }
}


/// Whether an entry named `name` exists under `dir`: the file system is asked
/// about `entry_path(dir, name)` and nothing else.
pub(crate) fn taken_in(dir: &str, name: &String) -> bool {
    let p = entry_path(dir, name.as_str());
    path_exists(p.as_str())
}

/// A free directory name under `try_path`: `base`, else `base-2`, `base-3`,
/// ..., the first that does not exist there. `None` when the counter runs out.
pub fn unique_dir_name(try_path: &str, base: &str) -> (r: Option<String>)
    ensures
        r matches Some(name) ==> exists|k: nat| k < MAX_SUFFIX && name@ == dir_candidate(base@, k),
{
    let r = unique_dir_name_with(base, |c: &String| taken_in(try_path, c));
    r
}

/// The names that resolving `base` can give: `base` itself; for a `base`
/// ending in digits, its stem with another number; otherwise `base-2`,
/// `base-3`, ...
pub open spec fn versioned_from(base: Seq<char>, name: Seq<char>) -> bool {
    ||| name == base
    ||| match numeric_suffix_split(base) {
        Some(parts) => exists|n: nat| n <= u64::MAX && name == parts.0 + decimal(n),
        None => exists|k: nat| k < MAX_SUFFIX && name == dir_candidate(base, k),
    }
}

/// A free name for a new try under `try_path` dated `date_prefix`, in the
/// part after the date: `base` when `date_prefix-base` does not exist; for a
/// `base` ending in digits, the same stem numbered above them; otherwise
/// `base-2`, `base-3`, ... `None` when the counter runs out.
pub fn resolve_unique_name_with_versioning(try_path: &str, date_prefix: &str, base: &str) -> (r: Option<String>)
    ensures
        r matches Some(name) ==> versioned_from(base@, name@),
{
    resolve_unique_name_with(date_prefix, base, |c: &String| taken_in(try_path, c))
}

} // verus!
