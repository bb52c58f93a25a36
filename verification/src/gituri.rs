//! Naming a clone after its repository: the name in a git URL.
use vstd::prelude::*;
use vstd::string::StringExecFns;
use crate::text::{chars_of, occurs_at, starts_with, ends_with, has_prefix, has_suffix, matches_at, string_of};
use crate::tokens::append_chars;

verus! {

/// The first index at or after `i` where `p` occurs in `s`.
pub open spec fn find_from(s: Seq<char>, p: Seq<char>, i: int) -> Option<int>
    decreases s.len() + 1 - i,
{
    if i < 0 || i + p.len() > s.len() {
        None
    } else if occurs_at(s, p, i) {
        Some(i)
    } else {
        find_from(s, p, i + 1)
    }
}

/// The pieces of `s` between the occurrences of `c` (`str::split`): one more
/// than there are occurrences.
pub open spec fn split_on(s: Seq<char>, c: char) -> Seq<Seq<char>>
    decreases s.len(),
{
    match find_from(s, seq![c], 0) {
        Some(i) => {
            proof {
                lemma_find_from(s, seq![c], 0);
            }
            seq![s.take(i)] + split_on(s.skip(i + 1), c)
        },
        None => seq![s],
    }
}

pub proof fn lemma_find_from(s: Seq<char>, p: Seq<char>, i: int)
    requires
        0 <= i,
    ensures
        match find_from(s, p, i) {
            Some(j) => i <= j && j + p.len() <= s.len() && occurs_at(s, p, j) && forall|k: int|
                i <= k < j ==> !occurs_at(s, p, k),
            None => forall|k: int| i <= k ==> !occurs_at(s, p, k),
        },
    decreases s.len() + 1 - i,
{
    if i + p.len() <= s.len() && !occurs_at(s, p, i) {
        lemma_find_from(s, p, i + 1);
    }
}

/// `s` without its trailing slashes.
pub open spec fn trim_slashes(s: Seq<char>) -> Seq<char>
    decreases s.len(),
{
    if s.len() > 0 && s.last() == '/' {
        trim_slashes(s.drop_last())
    } else {
        s
    }
}

/// `s` without one `.git` at its end.
pub open spec fn without_git(s: Seq<char>) -> Seq<char> {
    if ends_with(s, ".git"@) {
        s.take(s.len() - 4)
    } else {
        s
    }
}

/// `user-name`.
pub open spec fn owned(user: Seq<char>, name: Seq<char>) -> Seq<char> {
    user + "-"@ + name
}

/// The name for a clone of an HTTP(S) URL whose part after `://` is `path`.
pub open spec fn http_name(path: Seq<char>) -> Option<Seq<char>> {
    let parts = split_on(path, '/');
    let host = parts[0];
    let last = parts.last();
    let name = without_git(last);
    if parts.len() < 2 || last.len() == 0 || name.len() == 0 {
        None
    } else if host == "github.com"@ && parts.len() >= 3 && parts[parts.len() - 2].len() > 0 {
        Some(owned(parts[parts.len() - 2], name))
    } else if host == "gitlab.com"@ && parts.len() == 3 && parts[1].len() > 0 {
        Some(owned(parts[1], name))
    } else {
        Some(name)
    }
}

/// The text after the last `@` of `s`, or all of `s`.
pub open spec fn after_last_at(s: Seq<char>) -> Seq<char>
    decreases s.len(),
{
    if s.len() == 0 {
        s
    } else if s.last() == '@' {
        Seq::empty()
    } else {
        after_last_at(s.drop_last()).push(s.last())
    }
}

/// The name for a clone of an SSH URL `left:path`.
pub open spec fn ssh_name(left: Seq<char>, path: Seq<char>) -> Option<Seq<char>> {
    let host = after_last_at(left);
    let segments = split_on(path, '/');
    let last = segments.last();
    let name = without_git(last);
    if !left.contains('@') || last.len() == 0 || name.len() == 0 {
        None
    } else if host == "github.com"@ && segments.len() >= 2 && segments[segments.len() - 2].len() > 0 {
        Some(owned(segments[segments.len() - 2], name))
    } else if host == "gitlab.com"@ && starts_with(left, "git@"@) && segments.len() == 2 && segments[0].len() > 0 {
        Some(owned(segments[0], name))
    } else {
        Some(name)
    }
}

/// The name for a clone of `url`: the repository's name, prefixed with its
/// owner on GitHub and for two-level GitLab paths; `None` when `url` is not
/// an HTTP(S) or SSH git URL with a name.
pub open spec fn git_uri_name(url: Seq<char>) -> Option<Seq<char>> {
    let u = trim_slashes(url);
    if starts_with(u, "http://"@) || starts_with(u, "https://"@) {
        match find_from(u, "://"@, 0) {
            Some(i) => http_name(u.skip(i + 3)),
            None => None,
        }
    } else {
        match find_from(u, ":"@, 0) {
            Some(i) => ssh_name(u.take(i), u.skip(i + 1)),
            None => None,
        }
    }
}

/// Where `p` first occurs in `s` from `i` on.
fn find_chars(s: &Vec<char>, p: &Vec<char>, i: usize) -> (r: Option<usize>)
    ensures
        match r {
            Some(j) => find_from(s@, p@, i as int) == Some(j as int),
            None => find_from(s@, p@, i as int) is None,
        },
{
    if i > s.len() {
        return None;
    }
    let mut k = i;
    while k < s.len()
        invariant
            i <= k <= s@.len(),
            find_from(s@, p@, i as int) == find_from(s@, p@, k as int),
        decreases s.len() - k,
    {
        if p.len() > s.len() - k {
            return None;
        }
        if matches_at(s, p, k) {
            return Some(k);
        }
        k += 1;
    }
    if p.len() == 0 {
        assert(occurs_at(s@, p@, k as int)) by {
            assert(s@.subrange(k as int, k as int) =~= p@);
        }
        return Some(k);
    }
    None
}

/// The pieces of `s` between the occurrences of `c`.
fn split_chars(s: &Vec<char>, c: char) -> (r: Vec<Vec<char>>)
    ensures
        r@.map_values(|v: Vec<char>| v@) == split_on(s@, c),
{
    let sep = vec![c];
    assert(sep@ =~= seq![c]);
    let mut out: Vec<Vec<char>> = Vec::new();
    let mut start: usize = 0;
    let mut done = false;
    assert(s@.skip(0) =~= s@);
    assert(out@.map_values(|v: Vec<char>| v@) + split_on(s@, c) =~= split_on(s@, c));
    while !done
        invariant
            start <= s@.len(),
            sep@ == seq![c],
            !done ==> out@.map_values(|v: Vec<char>| v@) + split_on(s@.skip(start as int), c) == split_on(s@, c),
            done ==> out@.map_values(|v: Vec<char>| v@) == split_on(s@, c),
        decreases s@.len() - start + (if done { 0int } else { 1int }),
    {
        let ghost rest = s@.skip(start as int);
        let ghost before = out@.map_values(|v: Vec<char>| v@);
        match find_chars(s, &sep, start) {
            Some(j) => {
                proof {
                    lemma_find_from(s@, seq![c], start as int);
                    lemma_find_shift(s@, seq![c], start as int, start as int);
                    lemma_find_from(rest, seq![c], 0);
                }
                let mut piece: Vec<char> = Vec::new();
                let mut k = start;
                while k < j
                    invariant
                        start <= k <= j <= s@.len(),
                        piece@ == s@.subrange(start as int, k as int),
                    decreases j - k,
                {
                    piece.push(s[k]);
                    k += 1;
                    assert(piece@ =~= s@.subrange(start as int, k as int));
                }
                out.push(piece);
                assert(seq![c].len() == 1);
                assert(j < s@.len());
                let n = s.len();
                assert(j < n);
                proof {
                    assert(find_from(rest, seq![c], 0) == Some(j - start));
                    assert(rest.take(j - start) =~= s@.subrange(start as int, j as int));
                    assert(rest.skip(j - start + 1) =~= s@.skip(j + 1));
                    assert(out@.map_values(|v: Vec<char>| v@) =~= before.push(s@.subrange(start as int, j as int)));
                }
                start = j + 1;
            },
            None => {
                proof {
                    lemma_find_shift(s@, seq![c], start as int, start as int);
                }
                let mut piece: Vec<char> = Vec::new();
                let mut k = start;
                while k < s.len()
                    invariant
                        start <= k <= s@.len(),
                        piece@ == s@.subrange(start as int, k as int),
                    decreases s@.len() - k,
                {
                    piece.push(s[k]);
                    k += 1;
                    assert(piece@ =~= s@.subrange(start as int, k as int));
                }
                out.push(piece);
                proof {
                    assert(find_from(rest, seq![c], 0) is None);
                    assert(rest =~= s@.subrange(start as int, s@.len() as int));
                    assert(out@.map_values(|v: Vec<char>| v@) =~= before + split_on(rest, c));
                }
                done = true;
            },
        }
    }
    out
}

/// Searching `s` from `from` finds what searching its suffix from `i` does,
/// shifted by `i`.
proof fn lemma_find_shift(s: Seq<char>, p: Seq<char>, i: int, from: int)
    requires
        0 <= i <= from,
        i <= s.len(),
    ensures
        find_from(s.skip(i), p, from - i) == match find_from(s, p, from) {
            Some(j) => Some(j - i),
            None => None::<int>,
        },
    decreases s.len() + 1 - from,
{
    if from + p.len() <= s.len() {
        assert(occurs_at(s.skip(i), p, from - i) == occurs_at(s, p, from)) by {
            if occurs_at(s, p, from) {
                assert(s.skip(i).subrange(from - i, from - i + p.len()) =~= s.subrange(from, from + p.len()));
            }
            if occurs_at(s.skip(i), p, from - i) {
                assert(s.skip(i).subrange(from - i, from - i + p.len()) =~= s.subrange(from, from + p.len()));
            }
        }
        if !occurs_at(s, p, from) {
            lemma_find_shift(s, p, i, from + 1);
        }
    }
}


pub proof fn lemma_split_nonempty(s: Seq<char>, c: char)
    ensures
        split_on(s, c).len() >= 1,
    decreases s.len(),
{
    match find_from(s, seq![c], 0) {
        Some(i) => {
            lemma_find_from(s, seq![c], 0);
            lemma_split_nonempty(s.skip(i + 1), c);
        },
        None => {},
    }
}

fn subrange_of(v: &Vec<char>, from: usize, to: usize) -> (r: Vec<char>)
    requires
        from <= to <= v@.len(),
    ensures
        r@ == v@.subrange(from as int, to as int),
{
    let mut r: Vec<char> = Vec::new();
    let mut k = from;
    while k < to
        invariant
            from <= k <= to <= v@.len(),
            r@ == v@.subrange(from as int, k as int),
        decreases to - k,
    {
        r.push(v[k]);
        k += 1;
        assert(r@ =~= v@.subrange(from as int, k as int));
    }
    r
}

fn without_git_of(v: &Vec<char>) -> (r: Vec<char>)
    ensures
        r@ == without_git(v@),
{
    if has_suffix(v, ".git") {
        proof {
            reveal_strlit(".git");
        }
        subrange_of(v, 0, v.len() - 4)
    } else {
        subrange_of(v, 0, v.len())
    }
}

fn owned_of(user: &Vec<char>, name: &Vec<char>) -> (r: String)
    ensures
        r@ == owned(user@, name@),
{
    let mut out: Vec<char> = Vec::new();
    append_chars(&mut out, user);
    out.push('-');
    append_chars(&mut out, name);
    proof {
        reveal_strlit("-");
    }
    assert(out@ =~= owned(user@, name@));
    string_of(&out)
}

/// The views of an optional string.
pub open spec fn opt_text(o: Option<String>) -> Option<Seq<char>> {
    match o {
        Some(s) => Some(s@),
        None => None,
    }
}

fn http_name_of(path: &Vec<char>) -> (r: Option<String>)
    ensures
        opt_text(r) == http_name(path@),
{
    let parts = split_chars(path, '/');
    proof {
        lemma_split_nonempty(path@, '/');
        assert(parts@.len() == split_on(path@, '/').len());
    }
    let n = parts.len();
    let host = &parts[0];
    let last = &parts[n - 1];
    let name = without_git_of(last);
    proof {
        assert(parts@[0]@ == split_on(path@, '/')[0]);
        assert(parts@[n - 1]@ == split_on(path@, '/').last());
    }
    if n < 2 || last.len() == 0 || name.len() == 0 {
        return None;
    }
    proof {
        assert(parts@[n - 2]@ == split_on(path@, '/')[n - 2]);
        assert(parts@[1]@ == split_on(path@, '/')[1]);
    }
    if crate::text::chars_equal(host, "github.com") && n >= 3 && parts[n - 2].len() > 0 {
        Some(owned_of(&parts[n - 2], &name))
    } else if crate::text::chars_equal(host, "gitlab.com") && n == 3 && parts[1].len() > 0 {
        Some(owned_of(&parts[1], &name))
    } else {
        Some(string_of(&name))
    }
}

fn after_last_at_of(v: &Vec<char>) -> (r: Vec<char>)
    ensures
        r@ == after_last_at(v@),
{
    let mut k = v.len();
    assert(v@.take(k as int) =~= v@);
    assert(after_last_at(v@) =~= after_last_at(v@.take(k as int)) + v@.subrange(k as int, v@.len() as int));
    while k > 0 && v[k - 1] != '@'
        invariant
            k <= v@.len(),
            after_last_at(v@) == after_last_at(v@.take(k as int)) + v@.subrange(k as int, v@.len() as int),
        decreases k,
    {
        proof {
            assert(v@.take(k as int).drop_last() =~= v@.take(k - 1));
            assert(v@.subrange(k - 1, v@.len() as int) =~= seq![v@[k - 1]] + v@.subrange(k as int, v@.len() as int));
        }
        k -= 1;
    }
    proof {
        assert(v@.take(v@.len() as int) =~= v@);
        if k > 0 {
            assert(v@.take(k as int).last() == '@');
        }
        assert(after_last_at(v@.take(k as int)) =~= Seq::<char>::empty());
    }
    let r = subrange_of(v, k, v.len());
    assert(r@ =~= after_last_at(v@.take(k as int)) + v@.subrange(k as int, v@.len() as int));
    r
}

fn ssh_name_of(left: &Vec<char>, path: &Vec<char>) -> (r: Option<String>)
    ensures
        opt_text(r) == ssh_name(left@, path@),
{
    let mut has_at = false;
    let mut k: usize = 0;
    while k < left.len()
        invariant
            k <= left@.len(),
            has_at == exists|j: int| 0 <= j < k && left@[j] == '@',
        decreases left@.len() - k,
    {
        if left[k] == '@' {
            has_at = true;
        }
        k += 1;
    }
    assert(has_at == left@.contains('@'));
    let host = after_last_at_of(left);
    let segments = split_chars(path, '/');
    proof {
        lemma_split_nonempty(path@, '/');
        assert(segments@.len() == split_on(path@, '/').len());
    }
    let n = segments.len();
    let last = &segments[n - 1];
    let name = without_git_of(last);
    proof {
        assert(segments@[n - 1]@ == split_on(path@, '/').last());
        assert(segments@[0]@ == split_on(path@, '/')[0]);
    }
    if !has_at || last.len() == 0 || name.len() == 0 {
        return None;
    }
    proof {
        if n >= 2 {
            assert(segments@[n - 2]@ == split_on(path@, '/')[n - 2]);
        }
    }
    if crate::text::chars_equal(&host, "github.com") && n >= 2 && segments[n - 2].len() > 0 {
        Some(owned_of(&segments[n - 2], &name))
    } else if crate::text::chars_equal(&host, "gitlab.com") && has_prefix(left, "git@") && n == 2
        && segments[0].len() > 0 {
        Some(owned_of(&segments[0], &name))
    } else {
        Some(string_of(&name))
    }
}

/// The name for a clone of `url`: the repository's name, prefixed with its
/// owner on GitHub and for two-level GitLab paths; `None` when `url` is not a
/// git URL with a name.
pub fn parse_git_uri(url: &str) -> (r: Option<String>)
    ensures
        opt_text(r) == git_uri_name(url@),
{
    let mut u = chars_of(url);
    while u.len() > 0 && u[u.len() - 1] == '/'
        invariant
            trim_slashes(u@) == trim_slashes(url@),
        decreases u@.len(),
    {
        u.pop();
    }
    let ghost t = trim_slashes(url@);
    assert(u@ == t);
    if has_prefix(&u, "http://") || has_prefix(&u, "https://") {
        let sep = chars_of("://");
        proof {
            reveal_strlit("://");
        }
        match find_chars(&u, &sep, 0) {
            Some(i) => {
                proof {
                    lemma_find_from(u@, sep@, 0);
                }
                let path = subrange_of(&u, i + 3, u.len());
                assert(path@ =~= u@.skip(i + 3));
                http_name_of(&path)
            },
            None => None,
        }
    } else {
        let sep = chars_of(":");
        proof {
            reveal_strlit(":");
        }
        match find_chars(&u, &sep, 0) {
            Some(i) => {
                proof {
                    lemma_find_from(u@, sep@, 0);
                }
                let left = subrange_of(&u, 0, i);
                let path = subrange_of(&u, i + 1, u.len());
                assert(left@ =~= u@.take(i as int));
                assert(path@ =~= u@.skip(i + 1));
                ssh_name_of(&left, &path)
            },
            None => None,
        }
    }
}

} // verus!
