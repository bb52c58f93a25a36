//! Proofs about the escape-sequence tokenizer and the truncation laws.
use vstd::prelude::*;
use crate::width::{
    ELLIPSIS, char_cols, cols, display_width, escape_len_at, escapes_from, fitting_from, is_ascii_letter,
    is_escape_param, lemma_escape_len_at, lemma_params_end, leading_escapes_from, params_end,
    tail_after_skip, truncated, truncated_from_start, visible, visible_from,
};

verus! {

/// No escape-sequence scan can continue into `t`: it is empty or starts with a
/// character that is neither `[`, a parameter, nor a final letter.
pub open spec fn stops(t: Seq<char>) -> bool {
    t.len() == 0 || (!is_escape_param(t[0]) && !is_ascii_letter(t[0]) && t[0] != '[')
}

/// Two sequences agree on their first `m` positions.
pub open spec fn agree_upto(a: Seq<char>, b: Seq<char>, m: int) -> bool {
    &&& 0 <= m <= a.len()
    &&& m <= b.len()
    &&& forall|k: int| 0 <= k < m ==> a[k] == b[k]
}

pub proof fn lemma_cols_append(a: Seq<char>, b: Seq<char>)
    ensures
        cols(a + b) == cols(a) + cols(b),
    decreases a.len(),
{
    if a.len() > 0 {
        assert((a + b).skip(1) =~= a.skip(1) + b);
        lemma_cols_append(a.skip(1), b);
    } else {
        assert(a + b =~= b);
    }
}

proof fn lemma_params_end_agree(a: Seq<char>, b: Seq<char>, j: int)
    requires
        0 <= j <= a.len(),
        params_end(a, j) < a.len(),
        params_end(a, j) < b.len(),
        forall|k: int| j <= k <= params_end(a, j) ==> a[k] == b[k],
    ensures
        params_end(b, j) == params_end(a, j),
    decreases a.len() - j,
{
    lemma_params_end(a, j);
    if is_escape_param(a[j]) {
        lemma_params_end(a, j + 1);
        lemma_params_end_agree(a, b, j + 1);
    }
}

proof fn lemma_params_end_shift(a: Seq<char>, i: int, j: int)
    requires
        0 <= i <= j <= a.len(),
    ensures
        params_end(a, j) == params_end(a.skip(i), j - i) + i,
    decreases a.len() - j,
{
    if j < a.len() && is_escape_param(a[j]) {
        lemma_params_end_shift(a, i, j + 1);
    }
}

/// Escape detection looks only forward.
proof fn lemma_escape_shift(a: Seq<char>, i: int)
    requires
        0 <= i <= a.len(),
    ensures
        escape_len_at(a, i) == escape_len_at(a.skip(i), 0),
{
    if i + 2 <= a.len() {
        lemma_params_end_shift(a, i, i + 2);
        lemma_params_end(a, i + 2);
        let e = params_end(a, i + 2);
        let e2 = params_end(a.skip(i), 2);
        assert(e == e2 + i);
        assert(a.skip(i)[0] == a[i] && a.skip(i)[1] == a[i + 1]);
        if e < a.len() {
            assert(a.skip(i)[e2] == a[e]);
        }
    }
}

/// The tokenizer run from index `i + k` of `a` is the one run from index `k`
/// of the suffix of `a` after `i`.
pub proof fn lemma_visible_shift(a: Seq<char>, i: int, k: int)
    requires
        0 <= i,
        0 <= k,
        i + k <= a.len(),
    ensures
        visible_from(a, i + k) == visible_from(a.skip(i), k),
    decreases a.len() - (i + k),
{
    if i + k < a.len() {
        lemma_escape_shift(a, i + k);
        lemma_escape_shift(a.skip(i), k);
        assert(a.skip(i).skip(k) =~= a.skip(i + k));
        lemma_escape_len_at(a, i + k);
        match escape_len_at(a, i + k) {
            Some(n) => {
                lemma_visible_shift(a, i, k + n);
            },
            None => {
                lemma_visible_shift(a, i, k + 1);
            },
        }
    }
}

/// An escape sequence found in `a` at 0 is found in any `b` that agrees with
/// `a` over its length.
proof fn lemma_escape_agree(a: Seq<char>, b: Seq<char>, n: int)
    requires
        escape_len_at(a, 0) == Some(n),
        agree_upto(a, b, n),
    ensures
        escape_len_at(b, 0) == Some(n),
{
    lemma_params_end(a, 2);
    lemma_params_end_agree(a, b, 2);
}

/// A complete escape sequence in front of `r` leaves `r`'s visible text as it is.
pub proof fn lemma_escape_prefix(s: Seq<char>, i: int, r: Seq<char>)
    requires
        0 <= i <= s.len(),
        escape_len_at(s, i) is Some,
    ensures
        visible(s.subrange(i, i + escape_len_at(s, i)->0) + r) == visible(r),
{
    lemma_escape_len_at(s, i);
    let n = escape_len_at(s, i)->0;
    let u = s.subrange(i, i + n);
    let b = u + r;
    lemma_escape_shift(s, i);
    lemma_escape_agree(s.skip(i), b, n);
    lemma_visible_shift(b, n, 0);
    assert(b.skip(n) =~= r);
}

/// Escape sequences in front of `r` leave `r`'s visible text as it is.
pub proof fn lemma_escapes_prefix(s: Seq<char>, i: int, r: Seq<char>)
    requires
        0 <= i,
    ensures
        visible(escapes_from(s, i) + r) == visible(r),
        escapes_from(s, i).len() > 0 ==> escapes_from(s, i)[0] == '\u{1b}',
    decreases s.len() - i,
{
    if i < s.len() {
        lemma_escape_len_at(s, i);
        match escape_len_at(s, i) {
            Some(n) => {
                lemma_escapes_prefix(s, i + n, r);
                let u = s.subrange(i, i + n);
                assert(u + escapes_from(s, i + n) + r =~= u + (escapes_from(s, i + n) + r));
                lemma_escape_prefix(s, i, escapes_from(s, i + n) + r);
            },
            None => {
                lemma_escapes_prefix(s, i + 1, r);
            },
        }
    } else {
        assert(escapes_from(s, i) + r =~= r);
    }
}

/// A scan that fails on `a` fails on any `b` that agrees with `a` on a nonempty
/// prefix after which no scan can continue.
proof fn lemma_no_escape_kept(a: Seq<char>, b: Seq<char>, m: int)
    requires
        1 <= m,
        agree_upto(a, b, m),
        stops(b.skip(m)),
        escape_len_at(a, 0) is None,
    ensures
        escape_len_at(b, 0) is None,
{
    if escape_len_at(b, 0) is Some {
        lemma_params_end(b, 2);
        let e = params_end(b, 2);
        if m > e {
            assert(agree_upto(b, a, e + 1));
            lemma_params_end_agree(b, a, 2);
            assert(escape_len_at(a, 0) is Some);
        } else {
            assert(b.skip(m)[0] == b[m]);
            if m == 1 {
                assert(b[1] == '[');
            } else if m < e {
                assert(is_escape_param(b[m]));
            } else {
                assert(is_ascii_letter(b[e]));
            }
        }
    }
}

/// How many leading characters of `fitting_from(s, i, budget)` are copied
/// unchanged from `s` at `i`.
pub open spec fn kept_run(s: Seq<char>, i: int, budget: int) -> int
    decreases s.len() - i,
{
    if i < 0 || i >= s.len() {
        0
    } else {
        match escape_len_at(s, i) {
            Some(n) => if n > 0 {
                n + kept_run(s, i + n, budget)
            } else {
                0
            },
            None => if char_cols(s[i]) <= budget {
                1 + kept_run(s, i + 1, budget - char_cols(s[i]))
            } else {
                0
            },
        }
    }
}

/// The visible characters that `fitting_from(s, i, budget)` keeps.
pub open spec fn fitting_visible(s: Seq<char>, i: int, budget: int) -> Seq<char>
    decreases s.len() - i,
{
    if i < 0 || i >= s.len() {
        Seq::empty()
    } else {
        match escape_len_at(s, i) {
            Some(n) => if n > 0 {
                fitting_visible(s, i + n, budget)
            } else {
                Seq::empty()
            },
            None => if char_cols(s[i]) <= budget {
                seq![s[i]] + fitting_visible(s, i + 1, budget - char_cols(s[i]))
            } else {
                Seq::empty()
            },
        }
    }
}

proof fn lemma_fitting_cols(s: Seq<char>, i: int, budget: int)
    requires
        0 <= i <= s.len(),
        budget >= 0,
    ensures
        cols(fitting_visible(s, i, budget)) <= budget,
    decreases s.len() - i,
{
    if i < s.len() {
        lemma_escape_len_at(s, i);
        match escape_len_at(s, i) {
            Some(n) => lemma_fitting_cols(s, i + n, budget),
            None => {
                let c = s[i];
                if char_cols(c) <= budget {
                    let rest = fitting_visible(s, i + 1, budget - char_cols(c));
                    lemma_fitting_cols(s, i + 1, budget - char_cols(c));
                    assert((seq![c] + rest).skip(1) =~= rest);
                }
            },
        }
    }
}

#[verifier::rlimit(40)]
proof fn lemma_fitting(s: Seq<char>, i: int, budget: int, r: Seq<char>)
    requires
        0 <= i <= s.len(),
        stops(r),
    ensures
        agree_upto(s.skip(i), fitting_from(s, i, budget) + r, kept_run(s, i, budget)),
        stops((fitting_from(s, i, budget) + r).skip(kept_run(s, i, budget))),
        visible(fitting_from(s, i, budget) + r) == fitting_visible(s, i, budget) + visible(r),
    decreases s.len() - i,
{
    let o = fitting_from(s, i, budget);
    if i == s.len() {
        assert(o + r =~= r);
        assert(r.skip(0) =~= r);
        return ;
    }
    lemma_escape_len_at(s, i);
    match escape_len_at(s, i) {
        Some(n) => {
            let u = s.subrange(i, i + n);
            let rest = fitting_from(s, i + n, budget);
            lemma_fitting(s, i + n, budget, r);
            assert(o + r =~= u + (rest + r));
            lemma_escape_prefix(s, i, rest + r);
            let m2 = kept_run(s, i + n, budget);
            assert((o + r).skip(n + m2) =~= (rest + r).skip(m2));
            assert forall|k: int| 0 <= k < n + m2 implies #[trigger] s.skip(i)[k] == (o + r)[k] by {
                if k >= n {
                    assert(s.skip(i + n)[k - n] == (rest + r)[k - n]);
                }
            }
        },
        None => {
            let c = s[i];
            if char_cols(c) <= budget {
                let b2 = budget - char_cols(c);
                let rest = fitting_from(s, i + 1, b2);
                lemma_fitting(s, i + 1, b2, r);
                let m2 = kept_run(s, i + 1, b2);
                assert(o + r =~= seq![c] + (rest + r));
                assert((o + r).skip(1 + m2) =~= (rest + r).skip(m2));
                assert forall|k: int| 0 <= k < 1 + m2 implies #[trigger] s.skip(i)[k] == (o + r)[k] by {
                    if k >= 1 {
                        assert(s.skip(i + 1)[k - 1] == (rest + r)[k - 1]);
                    }
                }
                lemma_escape_shift(s, i);
                lemma_no_escape_kept(s.skip(i), o + r, 1 + m2);
                lemma_visible_shift(o + r, 1, 0);
                assert((o + r).skip(1) =~= rest + r);
                assert(fitting_visible(s, i, budget) + visible(r) =~= seq![c] + (fitting_visible(s, i + 1, b2) + visible(r)));
            } else {
                lemma_escapes_prefix(s, i + 1, r);
                assert(fitting_visible(s, i, budget) + visible(r) =~= visible(r));
                assert((o + r).skip(0) =~= o + r);
            }
        },
    }
}

/// Truncation never exceeds the width it is given (any width that can hold
/// the ellipsis, or zero).
pub proof fn law_truncated_width(s: Seq<char>, max: nat)
    requires
        max == 0 || char_cols(ELLIPSIS) <= max,
    ensures
        display_width(truncated(s, max)) <= max,
{
    let ell = seq![ELLIPSIS];
    assert(visible(ell) =~= ell) by {
        lemma_visible_shift(ell, 1, 0);
        assert(ell.skip(1) =~= Seq::<char>::empty());
    }
    assert(cols(ell) == char_cols(ELLIPSIS)) by {
        assert(ell.skip(1) =~= Seq::<char>::empty());
        assert(cols(Seq::<char>::empty()) == 0);
    }
    if display_width(s) <= max {
    } else if max == 0 {
        assert(display_width(Seq::<char>::empty()) == 0);
    } else if max <= char_cols(ELLIPSIS) {
        assert(visible(ell) == ell);
        assert(cols(visible(ell)) == char_cols(ELLIPSIS));
    } else {
        let t = max - char_cols(ELLIPSIS);
        assert(stops(ell));
        lemma_fitting(s, 0, t, ell);
        lemma_fitting_cols(s, 0, t);
        lemma_cols_append(fitting_visible(s, 0, t), ell);
        assert(visible(fitting_from(s, 0, t) + ell) == fitting_visible(s, 0, t) + ell);
        assert(display_width(truncated(s, max)) == cols(fitting_visible(s, 0, t) + ell));
    }
}

} // verus!
verus! {

pub proof fn lemma_fitting_len(s: Seq<char>, i: int, budget: int)
    requires
        0 <= i <= s.len(),
    ensures
        fitting_from(s, i, budget).len() <= s.len() - i,
        escapes_from(s, i).len() <= s.len() - i,
    decreases s.len() - i,
{
    if i < s.len() {
        lemma_escape_len_at(s, i);
        match escape_len_at(s, i) {
            Some(n) => lemma_fitting_len(s, i + n, budget),
            None => {
                lemma_fitting_len(s, i + 1, budget - char_cols(s[i]));
                lemma_fitting_len(s, i + 1, budget);
            },
        }
    }
}

/// Truncation adds at most one character.
pub proof fn lemma_truncated_len(s: Seq<char>, max: nat)
    ensures
        truncated(s, max).len() <= s.len() + 1,
{
    if display_width(s) > max && max > char_cols(ELLIPSIS) {
        lemma_fitting_len(s, 0, max - char_cols(ELLIPSIS));
    }
}

} // verus!
verus! {

/// Columns left after dropping `skip` columns from `total`.
pub open spec fn cols_after_skip(total: int, skip: int) -> int {
    if skip <= 0 {
        total
    } else if total >= skip {
        total - skip
    } else {
        0
    }
}

proof fn lemma_cols_cons(c: char, rest: Seq<char>)
    ensures
        cols(seq![c] + rest) == char_cols(c) + cols(rest),
{
    assert((seq![c] + rest).skip(1) =~= rest);
}

/// Once nothing is left to drop, the rest of `s` is kept as it is.
proof fn lemma_tail_whole(s: Seq<char>, i: int, skip: int)
    requires
        0 <= i <= s.len(),
        skip <= 0,
    ensures
        tail_after_skip(s, i, skip) == s.subrange(i, s.len() as int),
    decreases s.len() - i,
{
    if i < s.len() {
        lemma_escape_len_at(s, i);
        match escape_len_at(s, i) {
            Some(n) => {
                lemma_tail_whole(s, i + n, skip);
                assert(s.subrange(i, i + n) + s.subrange(i + n, s.len() as int) =~= s.subrange(
                    i,
                    s.len() as int,
                ));
            },
            None => {
                lemma_tail_whole(s, i + 1, skip);
                assert(seq![s[i]] + s.subrange(i + 1, s.len() as int) =~= s.subrange(
                    i,
                    s.len() as int,
                ));
            },
        }
    } else {
        assert(s.subrange(i, s.len() as int) =~= Seq::<char>::empty());
    }
}

/// Dropping `skip` columns from the text at `i` leaves at most the columns
/// that remain.
proof fn lemma_tail_cols(s: Seq<char>, i: int, skip: int)
    requires
        0 <= i <= s.len(),
    ensures
        cols(visible(tail_after_skip(s, i, skip))) <= cols_after_skip(
            cols(visible_from(s, i)) as int,
            skip,
        ),
    decreases s.len() - i,
{
    if skip <= 0 {
        lemma_tail_whole(s, i, skip);
        lemma_visible_shift(s, i, 0);
        assert(s.skip(i) =~= s.subrange(i, s.len() as int));
    } else if i < s.len() {
        lemma_escape_len_at(s, i);
        match escape_len_at(s, i) {
            Some(n) => {
                lemma_tail_cols(s, i + n, skip);
                assert(Seq::<char>::empty() + tail_after_skip(s, i + n, skip) =~= tail_after_skip(
                    s,
                    i + n,
                    skip,
                ));
            },
            None => {
                let c = s[i];
                lemma_tail_cols(s, i + 1, skip - char_cols(c));
                lemma_cols_cons(c, visible_from(s, i + 1));
            },
        }
    } else {
        assert(visible(Seq::<char>::empty()) =~= Seq::<char>::empty());
    }
}

/// Leading escape sequences in front of `r` leave `r`'s visible text as it is.
proof fn lemma_leading_escapes_prefix(s: Seq<char>, i: int, r: Seq<char>)
    requires
        0 <= i,
    ensures
        visible(leading_escapes_from(s, i) + r) == visible(r),
    decreases s.len() - i,
{
    if i < s.len() {
        lemma_escape_len_at(s, i);
        match escape_len_at(s, i) {
            Some(n) => {
                lemma_leading_escapes_prefix(s, i + n, r);
                let u = s.subrange(i, i + n);
                assert(u + leading_escapes_from(s, i + n) + r =~= u + (leading_escapes_from(
                    s,
                    i + n,
                ) + r));
                lemma_escape_prefix(s, i, leading_escapes_from(s, i + n) + r);
            },
            None => {
                assert(leading_escapes_from(s, i) + r =~= r);
            },
        }
    } else {
        assert(leading_escapes_from(s, i) + r =~= r);
    }
}

/// An ellipsis in front of `t` is seen as it is, then `t`'s visible text.
proof fn lemma_ellipsis_prefix(t: Seq<char>)
    ensures
        visible(seq![ELLIPSIS] + t) == seq![ELLIPSIS] + visible(t),
{
    let x = seq![ELLIPSIS] + t;
    lemma_visible_shift(x, 1, 0);
    assert(x.skip(1) =~= t);
}

/// Cutting from the start never exceeds the width it is given (any width that
/// can hold the ellipsis, or zero).
pub proof fn law_truncated_from_start_width(s: Seq<char>, max: nat)
    requires
        max == 0 || char_cols(ELLIPSIS) <= max,
    ensures
        display_width(truncated_from_start(s, max)) <= max,
{
    let ell = seq![ELLIPSIS];
    lemma_ellipsis_prefix(Seq::<char>::empty());
    assert(ell + Seq::<char>::empty() =~= ell);
    assert(visible(Seq::<char>::empty()) =~= Seq::<char>::empty());
    lemma_cols_cons(ELLIPSIS, Seq::<char>::empty());
    if display_width(s) <= max {
    } else if max == 0 {
        assert(display_width(Seq::<char>::empty()) == 0);
    } else if max <= char_cols(ELLIPSIS) {
    } else {
        let keep = max - char_cols(ELLIPSIS);
        let skip = display_width(s) - keep;
        let lead = leading_escapes_from(s, 0);
        let tail = tail_after_skip(s, 0, skip);
        assert(lead + ell + tail =~= lead + (ell + tail));
        lemma_leading_escapes_prefix(s, 0, ell + tail);
        lemma_ellipsis_prefix(tail);
        lemma_cols_cons(ELLIPSIS, visible(tail));
        lemma_tail_cols(s, 0, skip);
    }
}

} // verus!
verus! {

/// Every ESC in `s` starts a complete escape sequence: none is left among
/// its visible characters.
pub open spec fn escapes_whole(s: Seq<char>) -> bool {
    !visible(s).contains('\u{1b}')
}

proof fn lemma_visible_concat_from(x: Seq<char>, y: Seq<char>, i: int)
    requires
        0 <= i <= x.len(),
        !visible_from(x, i).contains('\u{1b}'),
    ensures
        visible_from(x + y, i) == visible_from(x, i) + visible(y),
    decreases x.len() - i,
{
    let xy = x + y;
    if i == x.len() {
        lemma_visible_shift(xy, i, 0);
        assert(xy.skip(i) =~= y);
        assert(visible_from(x, i) + visible(y) =~= visible(y));
    } else {
        lemma_escape_len_at(x, i);
        match escape_len_at(x, i) {
            Some(n) => {
                lemma_escape_shift(x, i);
                lemma_escape_shift(xy, i);
                assert(agree_upto(x.skip(i), xy.skip(i), n)) by {
                    assert forall|k: int| 0 <= k < n implies x.skip(i)[k] == #[trigger] xy.skip(i)[k] by {
                        assert(xy[i + k] == x[i + k]);
                    }
                }
                lemma_escape_agree(x.skip(i), xy.skip(i), n);
                lemma_visible_concat_from(x, y, i + n);
            },
            None => {
                let c = x[i];
                assert(visible_from(x, i)[0] == c);
                assert(xy[i] == c);
                assert(!visible_from(x, i + 1).contains('\u{1b}')) by {
                    if visible_from(x, i + 1).contains('\u{1b}') {
                        let k = choose|k: int|
                            0 <= k < visible_from(x, i + 1).len() && #[trigger] visible_from(x, i + 1)[k]
                                == '\u{1b}';
                        assert(visible_from(x, i)[k + 1] == '\u{1b}');
                    }
                }
                lemma_visible_concat_from(x, y, i + 1);
                assert(seq![c] + (visible_from(x, i + 1) + visible(y)) =~= seq![c] + visible_from(
                    x,
                    i + 1,
                ) + visible(y));
            },
        }
    }
}

/// Text whose escape sequences are whole can be followed by anything: the
/// visible text of the two is the visible text of each, one after the other.
pub proof fn lemma_visible_concat(x: Seq<char>, y: Seq<char>)
    requires
        escapes_whole(x),
    ensures
        visible(x + y) == visible(x) + visible(y),
        display_width(x + y) == display_width(x) + display_width(y),
        escapes_whole(y) ==> escapes_whole(x + y),
{
    lemma_visible_concat_from(x, y, 0);
    lemma_cols_append(visible(x), visible(y));
    if escapes_whole(y) && visible(x + y).contains('\u{1b}') {
        let k = choose|k: int| 0 <= k < visible(x + y).len() && #[trigger] visible(x + y)[k] == '\u{1b}';
        if k < visible(x).len() {
            assert(visible(x)[k] == '\u{1b}');
        } else {
            assert(visible(y)[k - visible(x).len()] == '\u{1b}');
        }
    }
}

proof fn lemma_plain_from(s: Seq<char>, i: int)
    requires
        0 <= i <= s.len(),
        !s.contains('\u{1b}'),
    ensures
        visible_from(s, i) == s.subrange(i, s.len() as int),
    decreases s.len() - i,
{
    if i < s.len() {
        assert(s[i] != '\u{1b}');
        lemma_plain_from(s, i + 1);
        assert(seq![s[i]] + s.subrange(i + 1, s.len() as int) =~= s.subrange(i, s.len() as int));
    } else {
        assert(s.subrange(i, s.len() as int) =~= Seq::<char>::empty());
    }
}

/// Text without ESC is all visible.
pub proof fn lemma_plain(s: Seq<char>)
    requires
        !s.contains('\u{1b}'),
    ensures
        visible(s) == s,
        escapes_whole(s),
{
    lemma_plain_from(s, 0);
    assert(s.subrange(0, s.len() as int) =~= s);
}

proof fn lemma_fitting_visible_plain(s: Seq<char>, i: int, budget: int)
    requires
        0 <= i <= s.len(),
        !visible_from(s, i).contains('\u{1b}'),
    ensures
        !fitting_visible(s, i, budget).contains('\u{1b}'),
    decreases s.len() - i,
{
    if i < s.len() {
        lemma_escape_len_at(s, i);
        match escape_len_at(s, i) {
            Some(n) => lemma_fitting_visible_plain(s, i + n, budget),
            None => {
                let c = s[i];
                assert(visible_from(s, i)[0] == c);
                assert(!visible_from(s, i + 1).contains('\u{1b}')) by {
                    if visible_from(s, i + 1).contains('\u{1b}') {
                        let k = choose|k: int|
                            0 <= k < visible_from(s, i + 1).len() && #[trigger] visible_from(s, i + 1)[k]
                                == '\u{1b}';
                        assert(visible_from(s, i)[k + 1] == '\u{1b}');
                    }
                }
                if char_cols(c) <= budget {
                    let rest = fitting_visible(s, i + 1, budget - char_cols(c));
                    lemma_fitting_visible_plain(s, i + 1, budget - char_cols(c));
                    if (seq![c] + rest).contains('\u{1b}') {
                        let k = choose|k: int|
                            0 <= k < (seq![c] + rest).len() && #[trigger] (seq![c] + rest)[k] == '\u{1b}';
                        if k > 0 {
                            assert(rest[k - 1] == '\u{1b}');
                        }
                    }
                }
            },
        }
    }
}

/// Truncation keeps escape sequences whole.
pub proof fn lemma_truncated_whole(s: Seq<char>, max: nat)
    requires
        escapes_whole(s),
    ensures
        escapes_whole(truncated(s, max)),
{
    let ell = seq![ELLIPSIS];
    assert(!ell.contains('\u{1b}')) by {
        if ell.contains('\u{1b}') {
            let k = choose|k: int| 0 <= k < ell.len() && ell[k] == '\u{1b}';
        }
    }
    lemma_plain(ell);
    if display_width(s) <= max {
    } else if max == 0 {
        lemma_plain(Seq::<char>::empty());
    } else if max <= char_cols(ELLIPSIS) {
    } else {
        let t = max - char_cols(ELLIPSIS);
        assert(stops(ell));
        lemma_fitting(s, 0, t, ell);
        lemma_fitting_visible_plain(s, 0, t);
        let fv = fitting_visible(s, 0, t);
        if (fv + ell).contains('\u{1b}') {
            let k = choose|k: int| 0 <= k < (fv + ell).len() && #[trigger] (fv + ell)[k] == '\u{1b}';
            if k < fv.len() {
                assert(fv[k] == '\u{1b}');
            }
        }
    }
}

} // verus!
verus! {

/// `params_end` from `j` is `e` when everything from `j` up to `e` is a
/// parameter character and the character at `e` is not.
pub proof fn lemma_param_run(s: Seq<char>, j: int, e: int)
    requires
        0 <= j <= e < s.len(),
        forall|k: int| j <= k < e ==> is_escape_param(#[trigger] s[k]),
        !is_escape_param(s[e]),
    ensures
        params_end(s, j) == e,
    decreases e - j,
{
    if j < e {
        lemma_param_run(s, j + 1, e);
    }
}

/// Every escape sequence is removed: `ESC [`, any run of digits, `;` and
/// `?`, and a final letter, in front of `s`, leave `s`'s visible text as it
/// is.
pub proof fn law_escape_sequence_is_invisible(params: Seq<char>, letter: char, s: Seq<char>)
    requires
        forall|k: int| 0 <= k < params.len() ==> is_escape_param(#[trigger] params[k]),
        is_ascii_letter(letter),
    ensures
        visible(seq!['\u{1b}', '['] + params + seq![letter] + s) == visible(s),
{
    let x = seq!['\u{1b}', '['] + params + seq![letter] + s;
    let e: int = 2 + params.len() as int;
    assert forall|k: int| 2 <= k < e implies is_escape_param(#[trigger] x[k]) by {
        assert(x[k] == params[k - 2]);
    }
    assert(x[e] == letter);
    lemma_param_run(x, 2, e);
    assert(escape_len_at(x, 0) == Some(e + 1));
    lemma_visible_shift(x, e + 1, 0);
    assert(x.skip(e + 1) =~= s);
}

} // verus!
