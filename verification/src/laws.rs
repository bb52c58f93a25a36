//! Properties that hold across the library's functions.
use vstd::prelude::*;
use crate::shell::{sh_quoted, sh_quoted_body, pwsh_quoted, pwsh_quoted_body};
use crate::input_field::{InputView, Edit, edited};
use crate::selector::{scrolled, min_nat, toggled, TrySelector, Dialog, KeyOutcome, SelectionResult, browse_step, dialog_step, dialog_field, dialog_kind};
use crate::commands::{KeyPress, Command, browse_command, DialogCommand, dialog_command};
use crate::text::{is_white, dashed, dashed_from, contains_seq, occurs_at};
use crate::gituri::{git_uri_name, split_on, find_from, lemma_find_from, without_git, owned, http_name, ssh_name, trim_slashes};
use crate::cli::without_flag;
use crate::tokens::{tokens_expanded, replaced};

verus! {

// ---------------------------------------------------------------------------
// Quoting
// ---------------------------------------------------------------------------

/// Index of the first `c` in `w` at or after `i`.
pub open spec fn next_char(w: Seq<char>, c: char, i: int) -> Option<int>
    decreases w.len() - i,
{
    if i < 0 || i >= w.len() {
        None
    } else if w[i] == c {
        Some(i)
    } else {
        next_char(w, c, i + 1)
    }
}

pub proof fn lemma_next_char(w: Seq<char>, c: char, i: int)
    requires
        0 <= i,
    ensures
        match next_char(w, c, i) {
            Some(j) => i <= j < w.len() && w[j] == c && forall|k: int| i <= k < j ==> w[k] != c,
            None => forall|k: int| i <= k < w.len() ==> w[k] != c,
        },
    decreases w.len() - i,
{
    if 0 <= i < w.len() && w[i] != c {
        lemma_next_char(w, c, i + 1);
    }
}

/// What a POSIX shell makes of the word `w` built of single-quoted parts
/// (taken literally) and double-quoted parts free of `$`, `` ` `` and `\`
/// (taken literally too); `None` for anything else.
pub open spec fn sh_word_value(w: Seq<char>) -> Option<Seq<char>>
    decreases w.len(),
{
    if w.len() == 0 {
        Some(Seq::empty())
    } else if w[0] == '\'' || w[0] == '"' {
        match next_char(w, w[0], 1) {
            Some(j) => {
                proof {
                    lemma_next_char(w, w[0], 1);
                }
                let part = w.subrange(1, j);
                if w[0] == '"' && (part.contains('$') || part.contains('`') || part.contains('\\')) {
                    None
                } else {
                    match sh_word_value(w.skip(j + 1)) {
                        Some(rest) => Some(part + rest),
                        None => None,
                    }
                }
            },
            None => None,
        }
    } else {
        None
    }
}

proof fn lemma_body_concat(a: Seq<char>, b: Seq<char>)
    ensures
        sh_quoted_body(a + b) == sh_quoted_body(a) + sh_quoted_body(b),
    decreases b.len(),
{
    if b.len() == 0 {
        assert(a + b =~= a);
        assert(sh_quoted_body(a) + sh_quoted_body(b) =~= sh_quoted_body(a));
    } else {
        assert((a + b).drop_last() =~= a + b.drop_last());
        assert((a + b).last() == b.last());
        lemma_body_concat(a, b.drop_last());
    }
}

proof fn lemma_body_plain(a: Seq<char>)
    requires
        !a.contains('\''),
    ensures
        sh_quoted_body(a) == a,
    decreases a.len(),
{
    if a.len() > 0 {
        assert(!a.drop_last().contains('\'')) by {
            if a.drop_last().contains('\'') {
                let k = choose|k: int| 0 <= k < a.drop_last().len() && a.drop_last()[k] == '\'';
                assert(a[k] == '\'');
            }
        }
        assert(a.last() != '\'') by {
            assert(a[a.len() - 1] == a.last());
        }
        lemma_body_plain(a.drop_last());
        assert(a.drop_last().push(a.last()) =~= a);
    }
}

/// A single-quoted part without quotes inside reads as itself.
proof fn lemma_single_part(a: Seq<char>, rest: Seq<char>)
    requires
        !a.contains('\''),
    ensures
        sh_word_value(seq!['\''] + a + seq!['\''] + rest) == match sh_word_value(rest) {
            Some(r) => Some(a + r),
            None => None,
        },
{
    let w = seq!['\''] + a + seq!['\''] + rest;
    let j: int = a.len() + 1int;
    assert(w[j] == '\'');
    assert forall|k: int| 1 <= k < j implies w[k] != '\'' by {
        assert(w[k] == a[k - 1]);
    }
    lemma_next_unique(w, '\'', 1, j);
    assert(w.subrange(1, j) =~= a);
    assert(w.skip(j + 1) =~= rest);
    assert(w[0] == '\'');
}

/// `"'"` reads as one quote.
proof fn lemma_quoted_quote(tail: Seq<char>)
    ensures
        sh_word_value(seq!['"', '\'', '"'] + tail) == match sh_word_value(tail) {
            Some(r) => Some(seq!['\''] + r),
            None => None,
        },
{
    let w = seq!['"', '\'', '"'] + tail;
    assert(w[2] == '"');
    assert(w[1] != '"');
    lemma_next_unique(w, '"', 1, 2);
    assert(w.subrange(1, 2) =~= seq!['\'']);
    assert(!seq!['\''].contains('$') && !seq!['\''].contains('`') && !seq!['\''].contains('\\')) by {
        if seq!['\''].contains('$') {
            let k = choose|k: int| 0 <= k < 1 && seq!['\''][k] == '$';
        }
        if seq!['\''].contains('`') {
            let k = choose|k: int| 0 <= k < 1 && seq!['\''][k] == '`';
        }
        if seq!['\''].contains('\\') {
            let k = choose|k: int| 0 <= k < 1 && seq!['\''][k] == '\\';
        }
    }
    assert(w.skip(3) =~= tail);
    assert(w[0] == '"');
}

/// `'` followed by the quoted body of `s`, a closing `'` and then `rest`,
/// reads as `s` followed by what `rest` reads as.
proof fn lemma_quoted_prefix(s: Seq<char>, rest: Seq<char>)
    ensures
        sh_word_value(seq!['\''] + sh_quoted_body(s) + seq!['\''] + rest) == match sh_word_value(rest) {
            Some(r) => Some(s + r),
            None => None,
        },
    decreases s.len(),
{
    lemma_next_char(s, '\'', 0);
    match next_char(s, '\'', 0) {
        None => {
            assert(!s.contains('\'')) by {
                if s.contains('\'') {
                    let k = choose|k: int| 0 <= k < s.len() && s[k] == '\'';
                }
            }
            lemma_body_plain(s);
            lemma_single_part(s, rest);
        },
        Some(i) => {
            let a = s.take(i);
            let c = s.skip(i + 1);
            assert(s =~= a + seq!['\''] + c);
            assert(!a.contains('\'')) by {
                if a.contains('\'') {
                    let k = choose|k: int| 0 <= k < a.len() && a[k] == '\'';
                    assert(s[k] == '\'');
                }
            }
            lemma_body_concat(a + seq!['\''], c);
            lemma_body_concat(a, seq!['\'']);
            lemma_body_plain(a);
            assert(sh_quoted_body(seq!['\'']) =~= seq!['\'', '"', '\'', '"', '\'']) by {
                reveal_strlit("'\"'\"'");
                assert(seq!['\''].drop_last() =~= Seq::<char>::empty());
                reveal_with_fuel(sh_quoted_body, 2);
            }
            let tail = seq!['\''] + sh_quoted_body(c) + seq!['\''] + rest;
            let dq = seq!['"', '\'', '"'] + tail;
            assert(seq!['\''] + sh_quoted_body(s) + seq!['\''] + rest =~= seq!['\''] + a + seq!['\''] + dq);
            lemma_single_part(a, dq);
            lemma_quoted_quote(tail);
            lemma_quoted_prefix(c, rest);
            match sh_word_value(rest) {
                Some(r) => {
                    assert(a + (seq!['\''] + (c + r)) =~= s + r);
                },
                None => {},
            }
        },
    }
}

proof fn lemma_next_unique(w: Seq<char>, c: char, i: int, j: int)
    requires
        0 <= i <= j < w.len(),
        w[j] == c,
        forall|k: int| i <= k < j ==> w[k] != c,
    ensures
        next_char(w, c, i) == Some(j),
    decreases j - i,
{
    if i < j {
        lemma_next_unique(w, c, i + 1, j);
    }
}

/// Quoting is literal: a POSIX shell reads what `q` makes of `s` as exactly
/// `s`, whatever quotes, `$`, backticks or spaces it holds.
pub proof fn law_quote_is_literal(s: Seq<char>)
    ensures
        sh_word_value(sh_quoted(s)) == Some(s),
{
    lemma_quoted_prefix(s, Seq::empty());
    assert(sh_quoted(s) =~= seq!['\''] + sh_quoted_body(s) + seq!['\''] + Seq::<char>::empty());
    assert(s + Seq::<char>::empty() =~= s);
}

/// What PowerShell makes of the rest of a single-quoted string after its
/// opening `'`: `''` stands for one `'`, and the closing `'` must end the word;
/// `None` for anything else.
pub open spec fn pwsh_literal_rest(w: Seq<char>) -> Option<Seq<char>>
    decreases w.len(),
{
    if w.len() == 0 {
        None
    } else if w[0] != '\'' {
        match pwsh_literal_rest(w.skip(1)) {
            Some(v) => Some(seq![w[0]] + v),
            None => None,
        }
    } else if w.len() == 1 {
        Some(Seq::empty())
    } else if w[1] == '\'' {
        match pwsh_literal_rest(w.skip(2)) {
            Some(v) => Some(seq!['\''] + v),
            None => None,
        }
    } else {
        None
    }
}

/// What PowerShell makes of the word `w` when it is one single-quoted string.
pub open spec fn pwsh_word_value(w: Seq<char>) -> Option<Seq<char>> {
    if w.len() > 0 && w[0] == '\'' {
        pwsh_literal_rest(w.skip(1))
    } else {
        None
    }
}

proof fn lemma_pwsh_body_concat(a: Seq<char>, b: Seq<char>)
    ensures
        pwsh_quoted_body(a + b) == pwsh_quoted_body(a) + pwsh_quoted_body(b),
    decreases b.len(),
{
    if b.len() == 0 {
        assert(a + b =~= a);
        assert(pwsh_quoted_body(a) + pwsh_quoted_body(b) =~= pwsh_quoted_body(a));
    } else {
        assert((a + b).drop_last() =~= a + b.drop_last());
        lemma_pwsh_body_concat(a, b.drop_last());
        let piece = if b.last() == '\'' { seq!['\'', '\''] } else { seq![b.last()] };
        assert(pwsh_quoted_body(a) + pwsh_quoted_body(b.drop_last()) + piece =~= pwsh_quoted_body(a)
            + (pwsh_quoted_body(b.drop_last()) + piece));
    }
}

proof fn lemma_pwsh_body_literal(s: Seq<char>)
    ensures
        pwsh_literal_rest(pwsh_quoted_body(s) + seq!['\'']) == Some(s),
    decreases s.len(),
{
    let w = pwsh_quoted_body(s) + seq!['\''];
    if s.len() == 0 {
        assert(w =~= seq!['\'']);
    } else {
        let c = s[0];
        let t = s.skip(1);
        assert(s =~= seq![c] + t);
        lemma_pwsh_body_concat(seq![c], t);
        assert(seq![c].drop_last() =~= Seq::<char>::empty());
        assert(pwsh_quoted_body(Seq::<char>::empty()) =~= Seq::<char>::empty());
        assert(w =~= pwsh_quoted_body(seq![c]) + (pwsh_quoted_body(t) + seq!['\'']));
        lemma_pwsh_body_literal(t);
        if c == '\'' {
            assert(pwsh_quoted_body(seq![c]) =~= seq!['\'', '\'']);
            assert(w.skip(2) =~= pwsh_quoted_body(t) + seq!['\'']);
        } else {
            assert(pwsh_quoted_body(seq![c]) =~= seq![c]);
            assert(w.skip(1) =~= pwsh_quoted_body(t) + seq!['\'']);
        }
    }
}

/// PowerShell quoting is literal: PowerShell reads what `pwsh_quote` makes of
/// `s` as exactly `s`, whatever quotes, `$` or spaces it holds.
pub proof fn law_pwsh_quote_is_literal(s: Seq<char>)
    ensures
        pwsh_word_value(pwsh_quoted(s)) == Some(s),
{
    lemma_pwsh_body_literal(s);
    assert(pwsh_quoted(s).skip(1) =~= pwsh_quoted_body(s) + seq!['\'']);
}


// ---------------------------------------------------------------------------
// Editing
// ---------------------------------------------------------------------------

/// Backspace undoes typing a character: the field is as it was.
pub proof fn law_backspace_undoes_insert(v: InputView, c: char)
    requires
        v.cursor <= v.text.len(),
    ensures
        edited(edited(v, Edit::Insert(c)), Edit::DeleteBefore) == v,
{
    assert(v.text.insert(v.cursor as int, c).remove(v.cursor as int) =~= v.text);
}

// ---------------------------------------------------------------------------
// Scrolling
// ---------------------------------------------------------------------------

/// After scrolling, the cursor's row is on screen: at or below the first
/// visible row and above the last, whenever the cursor is on a row and the
/// list shows any.
pub proof fn law_scroll_keeps_cursor_visible(cursor: nat, scroll: nat, visible: nat, len: nat)
    requires
        cursor < len,
        visible > 0,
    ensures
        scrolled(cursor, scroll, visible, len) <= cursor < scrolled(cursor, scroll, visible, len) + visible,
{
}

// ---------------------------------------------------------------------------
// Marks
// ---------------------------------------------------------------------------

/// Marking an entry twice leaves the marks as they were.
pub proof fn law_toggle_twice(marks: Set<Seq<char>>, p: Seq<char>)
    ensures
        toggled(toggled(marks, p), p) == marks,
{
    if marks.contains(p) {
        assert(marks.remove(p).insert(p) =~= marks);
    } else {
        assert(marks.insert(p).remove(p) =~= marks);
    }
}

// ---------------------------------------------------------------------------
// Names
// ---------------------------------------------------------------------------

proof fn lemma_dashed_from_plain(t: Seq<char>, i: int, emitted: bool, pending: bool)
    ensures
        forall|k: int| 0 <= k < dashed_from(t, i, emitted, pending).len() ==> !is_white(
            #[trigger] dashed_from(t, i, emitted, pending)[k],
        ),
    decreases t.len() - i,
{
    if 0 <= i < t.len() {
        if is_white(t[i]) {
            lemma_dashed_from_plain(t, i + 1, emitted, emitted);
            assert(dashed_from(t, i, emitted, pending) == dashed_from(t, i + 1, emitted, emitted));
        } else {
            lemma_dashed_from_plain(t, i + 1, true, false);
            let head = (if pending {
                seq!['-']
            } else {
                Seq::empty()
            }) + seq![t[i]];
            let rest = dashed_from(t, i + 1, true, false);
            assert(dashed_from(t, i, emitted, pending) == head + rest);
            assert forall|k: int| 0 <= k < (head + rest).len() implies !is_white(#[trigger] (head + rest)[k]) by {
                if k >= head.len() {
                    assert((head + rest)[k] == rest[k - head.len()]);
                }
            }
        }
    }
}

/// A new name from the rename dialog holds no white space: its words are
/// joined by dashes.
pub proof fn law_dashed_name_has_no_white_space(t: Seq<char>)
    ensures
        forall|k: int| 0 <= k < dashed(t).len() ==> !is_white(#[trigger] dashed(t)[k]),
{
    lemma_dashed_from_plain(t, 0, false, false);
}

proof fn lemma_split_pieces(s: Seq<char>, c: char)
    ensures
        forall|k: int| 0 <= k < split_on(s, c).len() ==> !(#[trigger] split_on(s, c)[k]).contains(c),
    decreases s.len(),
{
    lemma_find_from(s, seq![c], 0);
    match find_from(s, seq![c], 0) {
        Some(i) => {
            lemma_split_pieces(s.skip(i + 1), c);
            let first = s.take(i);
            assert(!first.contains(c)) by {
                if first.contains(c) {
                    let k = choose|k: int| 0 <= k < first.len() && first[k] == c;
                    assert(occurs_at(s, seq![c], k)) by {
                        assert(s.subrange(k, k + 1) =~= seq![c]);
                    }
                }
            }
            let parts = split_on(s, c);
            assert(parts == seq![first] + split_on(s.skip(i + 1), c));
            assert forall|k: int| 0 <= k < parts.len() implies !(#[trigger] parts[k]).contains(c) by {
                if k > 0 {
                    assert(parts[k] == split_on(s.skip(i + 1), c)[k - 1]);
                }
            }
        },
        None => {
            assert(!s.contains(c)) by {
                if s.contains(c) {
                    let k = choose|k: int| 0 <= k < s.len() && s[k] == c;
                    assert(occurs_at(s, seq![c], k)) by {
                        assert(s.subrange(k, k + 1) =~= seq![c]);
                    }
                }
            }
        },
    }
}

proof fn lemma_no_slash_take(t: Seq<char>, n: int)
    requires
        !t.contains('/'),
        0 <= n <= t.len(),
    ensures
        !t.take(n).contains('/'),
{
    if t.take(n).contains('/') {
        let k = choose|k: int| 0 <= k < t.take(n).len() && t.take(n)[k] == '/';
        assert(t[k] == '/');
    }
}

proof fn lemma_owned_plain(user: Seq<char>, name: Seq<char>)
    requires
        !user.contains('/'),
        !name.contains('/'),
    ensures
        !owned(user, name).contains('/'),
{
    reveal_strlit("-");
    let o = owned(user, name);
    if o.contains('/') {
        let k = choose|k: int| 0 <= k < o.len() && o[k] == '/';
        if k < user.len() {
            assert(o[k] == user[k]);
        } else if k == user.len() {
            assert(o[k] == '-');
        } else {
            assert(o[k] == name[k - user.len() - 1]);
        }
    }
}

/// The name a clone gets is a single path component: never empty, and
/// without a slash.
pub proof fn law_clone_name_is_one_component(url: Seq<char>)
    ensures
        git_uri_name(url) matches Some(n) ==> n.len() > 0 && !n.contains('/'),
{
    let u = trim_slashes(url);
    reveal_strlit(".git");
    match git_uri_name(url) {
        Some(n) => {
            if crate::text::starts_with(u, "http://"@) || crate::text::starts_with(u, "https://"@) {
                let i = find_from(u, "://"@, 0)->0;
                let path = u.skip(i + 3);
                let parts = split_on(path, '/');
                lemma_split_pieces(path, '/');
                crate::gituri::lemma_split_nonempty(path, '/');
                let last = parts.last();
                assert(!last.contains('/'));
                lemma_no_slash_take(last, if crate::text::ends_with(last, ".git"@) { last.len() - 4 } else { last.len() as int });
                assert(last.take(last.len() as int) =~= last);
                if parts.len() >= 3 {
                    lemma_owned_plain(parts[parts.len() - 2], without_git(last));
                    lemma_owned_plain(parts[1], without_git(last));
                }
            } else {
                let i = find_from(u, ":"@, 0)->0;
                let path = u.skip(i + 1);
                let segments = split_on(path, '/');
                lemma_split_pieces(path, '/');
                crate::gituri::lemma_split_nonempty(path, '/');
                let last = segments.last();
                assert(!last.contains('/'));
                lemma_no_slash_take(last, if crate::text::ends_with(last, ".git"@) { last.len() - 4 } else { last.len() as int });
                assert(last.take(last.len() as int) =~= last);
                if segments.len() >= 2 {
                    lemma_owned_plain(segments[segments.len() - 2], without_git(last));
                    lemma_owned_plain(segments[0], without_git(last));
                }
            }
        },
        None => {},
    }
}

/// Trailing slashes do not change what a URL's clone is named.
pub proof fn law_clone_name_ignores_trailing_slash(url: Seq<char>)
    ensures
        git_uri_name(url.push('/')) == git_uri_name(url),
{
    assert(url.push('/').drop_last() =~= url);
}

proof fn lemma_trim_slashes_prefix(s: Seq<char>)
    ensures
        trim_slashes(s).len() <= s.len(),
        trim_slashes(s) == s.take(trim_slashes(s).len() as int),
    decreases s.len(),
{
    if s.len() > 0 && s.last() == '/' {
        lemma_trim_slashes_prefix(s.drop_last());
        assert(s.drop_last().take(trim_slashes(s).len() as int) =~= s.take(trim_slashes(s).len() as int));
    } else {
        assert(s.take(s.len() as int) =~= s);
    }
}

/// Only HTTP(S) URLs, and SSH URLs whose part before the first `:` names a
/// user with `@`, give a clone name.
pub proof fn law_clone_name_needs_scheme_or_user(url: Seq<char>)
    ensures
        git_uri_name(url) is Some ==> {
            ||| crate::text::starts_with(url, "http://"@)
            ||| crate::text::starts_with(url, "https://"@)
            ||| exists|i: int|
                0 <= i < url.len() && url[i] == ':' && (forall|k: int| 0 <= k < i ==> url[k] != ':')
                    && #[trigger] url.take(i).contains('@')
        },
{
    let u = trim_slashes(url);
    lemma_trim_slashes_prefix(url);
    if git_uri_name(url) is Some {
        if crate::text::starts_with(u, "http://"@) || crate::text::starts_with(u, "https://"@) {
            reveal_strlit("http://");
            reveal_strlit("https://");
            if crate::text::starts_with(u, "http://"@) {
                assert(url.take(7) =~= u.take(7));
            } else {
                assert(url.take(8) =~= u.take(8));
            }
        } else {
            reveal_strlit(":");
            lemma_find_from(u, ":"@, 0);
            let i = find_from(u, ":"@, 0)->0;
            assert(u.subrange(i, i + 1) == ":"@);
            assert(u.subrange(i, i + 1)[0] == u[i]);
            assert(u[i] == ':');
            assert(url[i] == u[i]);
            assert forall|k: int| 0 <= k < i implies url[k] != ':' by {
                assert(url[k] == u[k]);
                if u[k] == ':' {
                    assert(u.subrange(k, k + 1) =~= ":"@);
                    assert(occurs_at(u, ":"@, k));
                }
            }
            assert(url.take(i) =~= u.take(i));
            assert(url.take(i).contains('@'));
        }
    }
}

// ---------------------------------------------------------------------------
// Arguments
// ---------------------------------------------------------------------------

/// Once a flag is taken out of the arguments, none of them is that flag.
pub proof fn law_extracted_flag_is_gone(args: Seq<Seq<char>>, flag: Seq<char>)
    ensures
        !without_flag(args, flag).contains(flag),
    decreases args.len(),
{
    if args.len() > 0 {
        law_extracted_flag_is_gone(args.drop_last(), flag);
        let front = without_flag(args.drop_last(), flag);
        let w = without_flag(args, flag);
        if w.contains(flag) {
            let k = choose|k: int| 0 <= k < w.len() && w[k] == flag;
            if k < front.len() {
                assert(w[k] == front[k]);
            }
        }
    }
}

// ---------------------------------------------------------------------------
// Tokens
// ---------------------------------------------------------------------------

proof fn lemma_brace_free_replaced(s: Seq<char>, pat: Seq<char>, rep: Seq<char>)
    requires
        !s.contains('{'),
        pat.len() > 0,
        pat[0] == '{',
    ensures
        replaced(s, pat, rep) == s,
{
    assert(!contains_seq(s, pat)) by {
        if contains_seq(s, pat) {
            let i = choose|i: int| occurs_at(s, pat, i);
            assert(s.subrange(i, i + pat.len())[0] == pat[0]);
            assert(s[i] == '{');
        }
    }
    crate::tokens::lemma_replaced_absent(s, pat, rep, 0);
    assert(s.skip(0) =~= s);
}

/// A name without braces holds no tokens: expanding it changes nothing.
pub proof fn law_names_without_braces_are_kept(
    name: Seq<char>,
    date: Seq<char>,
    time: Seq<char>,
    ts: Seq<char>,
    rand: Seq<char>,
)
    requires
        !name.contains('{'),
    ensures
        tokens_expanded(name, date, time, ts, rand) == name,
{
    reveal_strlit("{date}");
    reveal_strlit("{time}");
    reveal_strlit("{ts}");
    reveal_strlit("{rand}");
    lemma_brace_free_replaced(name, "{date}"@, date);
    lemma_brace_free_replaced(name, "{time}"@, time);
    lemma_brace_free_replaced(name, "{ts}"@, ts);
    lemma_brace_free_replaced(name, "{rand}"@, rand);
}


// ---------------------------------------------------------------------------
// The selector
// ---------------------------------------------------------------------------

/// Nothing is deleted unless the confirmation dialog was open with `YES`
/// typed into it when Enter was pressed: whatever key a selector `a` gets,
/// if the selection ends in a deletion, that is how it stood.
pub proof fn law_delete_only_after_yes(a: TrySelector, b: TrySelector, k: KeyPress, out: KeyOutcome)
    requires
        a.dialog is Closed ==> browse_step(a, b, k, out),
        !(a.dialog is Closed) ==> dialog_step(a, b, k, out),
        out matches KeyOutcome::Exit(SelectionResult::Delete(_)),
    ensures
        a.dialog is Confirm,
        dialog_field(a.dialog).text == "YES"@,
        k.key == crate::commands::Key::Enter,
{
    if a.dialog is Closed {
        match browse_command(k) {
            Command::Select => {
                if !(a.delete_mode && a.marked_for_delete@.len() > 0) && a.cursor_pos >= a.tries@.len()
                    && a.input_field@.text.len() > 0 {
                    assert(crate::selector::creates_try(a.try_path@, a.input_field@.text, out));
                }
            },
            Command::CreateNew => {
                if a.input_field@.text.len() > 0 {
                    assert(crate::selector::creates_try(a.try_path@, a.input_field@.text, out));
                }
            },
            _ => {},
        }
    }
}

/// The cursor is on a row of the list (or at the top of an empty one), and
/// that row is on screen whenever the list shows any rows.
pub open spec fn cursor_in_view(s: TrySelector) -> bool {
    &&& s.cursor_pos == 0 || s.cursor_pos < s.tries@.len()
    &&& s.visible_rows() > 0 ==> s.scroll_offset <= s.cursor_pos < s.scroll_offset + s.visible_rows()
}

/// Whatever key the selector gets, in the list or in a dialog, the cursor
/// stays on a row of the list and that row stays on screen. (A new selector
/// and a refiltered list start with cursor and scroll at the top.)
pub proof fn law_keys_keep_cursor_in_view(a: TrySelector, b: TrySelector, k: KeyPress, out: KeyOutcome)
    requires
        cursor_in_view(a),
        a.dialog is Closed ==> browse_step(a, b, k, out),
        !(a.dialog is Closed) ==> dialog_step(a, b, k, out),
    ensures
        cursor_in_view(b),
{
    let len = a.tries@.len();
    let vis = a.visible_rows();
    if a.dialog is Closed {
        match browse_command(k) {
            Command::Up => {
                if a.cursor_pos > 0 && vis > 0 {
                    law_scroll_keeps_cursor_visible((a.cursor_pos - 1) as nat, a.scroll_offset as nat, vis, len);
                }
            },
            Command::Down => {
                if a.cursor_pos + 1 < len && vis > 0 {
                    law_scroll_keeps_cursor_visible((a.cursor_pos + 1) as nat, a.scroll_offset as nat, vis, len);
                }
            },
            _ => {},
        }
    }
}


// ---------------------------------------------------------------------------
// Navigation keys
// ---------------------------------------------------------------------------

/// Keys that move the cursor down: Down, Tab, Control-N and Control-J.
pub open spec fn down_key(k: KeyPress) -> bool {
    k.key == crate::commands::Key::Down || k.key == crate::commands::Key::Tab || (k.ctrl && (k.key
        == crate::commands::Key::Char('n') || k.key == crate::commands::Key::Char('j')))
}

/// Keys that move the cursor up: Up, Shift-Tab, Control-P and Control-K.
pub open spec fn up_key(k: KeyPress) -> bool {
    k.key == crate::commands::Key::Up || k.key == crate::commands::Key::BackTab || (k.ctrl && (k.key
        == crate::commands::Key::Char('p') || k.key == crate::commands::Key::Char('k')))
}

/// In the list, the navigation keys move the cursor one row: Down, Tab,
/// Control-N and Control-J one row down while there is a row below, Up,
/// Shift-Tab, Control-P and Control-K one row up while there is one above.
/// None of them touches the list, the search text or the marks, and the
/// selector carries on.
pub proof fn law_navigation_keys_move_one_row(a: TrySelector, b: TrySelector, k: KeyPress, out: KeyOutcome)
    requires
        a.dialog is Closed,
        browse_step(a, b, k, out),
    ensures
        down_key(k) ==> b.cursor_pos == (if a.cursor_pos + 1 < a.tries@.len() {
            a.cursor_pos + 1
        } else {
            a.cursor_pos as int
        }),
        up_key(k) ==> b.cursor_pos == (if a.cursor_pos > 0 {
            a.cursor_pos - 1
        } else {
            a.cursor_pos as int
        }),
        down_key(k) || up_key(k) ==> {
            &&& out == KeyOutcome::Continue
            &&& b.tries@ == a.tries@
            &&& b.input_field@ == a.input_field@
            &&& b.marked_for_delete@ == a.marked_for_delete@
            &&& b.dialog is Closed
        },
{
}

// ---------------------------------------------------------------------------
// Routing `exec`
// ---------------------------------------------------------------------------

/// `exec worktree …` makes a worktree try from the arguments after the
/// subcommand, as `exec . NAME…` does; `exec clone …` clones the URL that
/// follows the subcommand.
pub proof fn law_exec_subcommands(rest: Seq<Seq<char>>)
    ensures
        crate::cli::exec_action(seq!["worktree"@] + rest) == crate::cli::ExecAction::Worktree(1),
        crate::cli::exec_action(seq!["clone"@] + rest) == crate::cli::ExecAction::Clone(1),
        rest.len() > 0 ==> crate::cli::exec_action(seq!["."@] + rest) == crate::cli::exec_action(
            seq!["worktree"@] + rest,
        ),
{
    reveal_strlit("worktree");
    reveal_strlit("clone");
    reveal_strlit(".");
    assert((seq!["worktree"@] + rest)[0] == "worktree"@);
    assert((seq!["clone"@] + rest)[0] == "clone"@);
    assert((seq!["."@] + rest)[0] == "."@);
    assert("worktree"@ != "."@ && "worktree"@ != "clone"@) by {
        assert("worktree"@.len() == 8);
    }
    assert("clone"@ != "."@) by {
        assert("clone"@.len() == 5);
    }
}

// ---------------------------------------------------------------------------
// Shell integration
// ---------------------------------------------------------------------------

/// zsh gets a shell function, the very one bash gets, for every binary and
/// tries path.
pub proof fn law_zsh_init_is_bash_init(binary_path: Seq<char>, path: Seq<char>)
    ensures
        crate::shell::init_snippet_text("zsh"@, binary_path, path) == crate::shell::init_snippet_text(
            "bash"@,
            binary_path,
            path,
        ),
        crate::shell::init_snippet_text("bash"@, binary_path, path) is Some,
{
    reveal_strlit("zsh");
    reveal_strlit("bash");
    reveal_strlit("fish");
    reveal_strlit("pwsh");
    assert("zsh"@.len() == 3 && "bash"@.len() == 4 && "fish"@.len() == 4 && "pwsh"@.len() == 4);
    assert("zsh"@ != "fish"@ && "zsh"@ != "pwsh"@ && "zsh"@ != "bash"@);
    assert("bash"@[0] == 'b' && "fish"@[0] == 'f' && "pwsh"@[0] == 'p');
    assert("bash"@ != "fish"@ && "bash"@ != "pwsh"@);
}

// ---------------------------------------------------------------------------
// Graduation
// ---------------------------------------------------------------------------

proof fn lemma_take_of_concat(x: Seq<char>, y: Seq<char>, n: int)
    requires
        0 <= n <= x.len(),
    ensures
        (x + y).take(n) == x.take(n),
{
    assert((x + y).take(n) =~= x.take(n));
}

/// Joined parts begin with the first two and the separator between them.
proof fn lemma_joined_front(parts: Seq<Seq<char>>, sep: Seq<char>)
    requires
        parts.len() >= 2,
    ensures
        crate::text::starts_with(crate::ansi::joined(parts, sep), parts[0] + sep + parts[1]),
    decreases parts.len(),
{
    let p = parts[0] + sep + parts[1];
    if parts.len() == 2 {
        assert(parts.drop_last() =~= seq![parts[0]]);
        assert(crate::ansi::joined(parts.drop_last(), sep) == parts[0]);
        assert(parts.last() == parts[1]);
        assert(crate::ansi::joined(parts, sep) == p);
        assert(p.take(p.len() as int) =~= p);
    } else {
        let front = parts.drop_last();
        lemma_joined_front(front, sep);
        assert(front[0] == parts[0] && front[1] == parts[1]);
        let j = crate::ansi::joined(front, sep);
        lemma_take_of_concat(j, sep + parts.last(), p.len() as int);
        assert(crate::ansi::joined(parts, sep) =~= j + (sep + parts.last()));
    }
}

/// The repository a worktree try belongs to, when `git_file` (what its
/// `.git` file reads) points into one with `gitdir:`; its parent directory
/// when that root cannot be found.
pub open spec fn worktree_root(src: Seq<char>, git_file: Option<Seq<char>>) -> Option<Seq<char>> {
    match git_file {
        Some(content) => match crate::script::gitdir_target(content) {
            Some(t) => Some(
                match crate::script::repo_root_of(src, t) {
                    Some(r) => r,
                    None => crate::paths::parent_or_dot(src),
                },
            ),
            None => None,
        },
        None => None,
    }
}

/// Graduating a try that is a git worktree (its `.git` file reads
/// `gitdir: …`) moves it with `git worktree move`, run from its repository's
/// root; any other try is moved with `mv` from its parent directory. Either
/// way the selection gives one script.
pub proof fn law_graduation_moves_worktrees_with_git(
    src: String,
    dest: String,
    cwd: Option<Seq<char>>,
    git_file: Option<Seq<char>>,
)
    ensures
        crate::cli::selection_cmds(SelectionResult::Ascend(src, dest), cwd, git_file) matches Some(cmds)
            && cmds.len() == 1 && crate::text::starts_with(
            cmds[0],
            match worktree_root(src@, git_file) {
                Some(root) => "cd "@ + sh_quoted(root) + " && \\\n  "@ + ("git worktree move "@ + sh_quoted(
                    src@,
                ) + " "@ + sh_quoted(dest@)),
                None => "cd "@ + sh_quoted(crate::paths::parent_or_dot(src@)) + " && \\\n  "@ + ("mv "@
                    + sh_quoted(crate::script::basename_of(src@)) + " "@ + sh_quoted(dest@)),
            },
        ),
{
    let parts = crate::script::ascend_cmds(src@, dest@, git_file);
    assert(parts.len() == 5);
    lemma_joined_front(parts, " && \\\n  "@);
}

// ---------------------------------------------------------------------------
// The header's age
// ---------------------------------------------------------------------------

/// The age the header shows is the newest try's: the smallest of the ages,
/// which is one of them; there is none exactly when there are no tries.
pub proof fn law_header_shows_newest_age(ages: Seq<u64>)
    ensures
        crate::render::min_age(ages) is None <==> ages.len() == 0,
        crate::render::min_age(ages) matches Some(m) ==> ages.contains(m) && forall|i: int|
            0 <= i < ages.len() ==> m <= #[trigger] ages[i],
    decreases ages.len(),
{
    if ages.len() > 0 {
        let front = ages.drop_last();
        law_header_shows_newest_age(front);
        let m = crate::render::min_age(ages)->0;
        if ages.last() == m {
            assert(ages[ages.len() - 1] == m);
        } else {
            let m0 = crate::render::min_age(front)->0;
            let i = choose|i: int| 0 <= i < front.len() && front[i] == m0;
            assert(ages[i] == m0);
        }
        assert forall|i: int| 0 <= i < ages.len() implies m <= #[trigger] ages[i] by {
            if i < ages.len() - 1 {
                assert(ages[i] == front[i]);
            }
        }
    }
}

} // verus!
