//! Fuzzy matching: where a query's characters fall in a name, and which of
//! those places begin a word.
use vstd::prelude::*;
use crate::text::{chars_of, ascii_alnum, is_ascii_alnum};

verus! {

/// The first index `j >= from` where `t` holds `c`.
pub open spec fn first_at(t: Seq<char>, c: char, from: int) -> Option<int>
    decreases t.len() - from,
{
    if from < 0 || from >= t.len() {
        None
    } else if t[from] == c {
        Some(from)
    } else {
        first_at(t, c, from + 1)
    }
}

/// The positions of `q`'s characters in `t` from index `from` on, each taken
/// as early as it can be after the one before; `None` when one is missing.
pub open spec fn greedy_from(t: Seq<char>, q: Seq<char>, from: int) -> Option<Seq<int>>
    decreases q.len(),
{
    if q.len() == 0 {
        Some(Seq::empty())
    } else {
        match first_at(t, q[0], from) {
            None => None,
            Some(j) => match greedy_from(t, q.skip(1), j + 1) {
                None => None,
                Some(rest) => Some(seq![j] + rest),
            },
        }
    }
}

/// The leftmost positions of `q`'s characters in `t`, in order.
pub open spec fn greedy_positions(t: Seq<char>, q: Seq<char>) -> Option<Seq<int>> {
    greedy_from(t, q, 0)
}

/// `pos` places the characters of `q` in `t`, at increasing indices, each on
/// an equal character.
pub open spec fn embeds(t: Seq<char>, q: Seq<char>, pos: Seq<int>) -> bool {
    &&& pos.len() == q.len()
    &&& forall|i: int| 0 <= i < q.len() ==> 0 <= #[trigger] pos[i] < t.len() && t[pos[i]] == q[i]
    &&& forall|i: int, j: int| 0 <= i < j < q.len() ==> #[trigger] pos[i] < #[trigger] pos[j]
}

/// `q`'s characters occur in `t` in order, not necessarily next to each other.
pub open spec fn is_subsequence(t: Seq<char>, q: Seq<char>) -> bool {
    exists|pos: Seq<int>| embeds(t, q, pos)
}

/// The positions as integers.
pub open spec fn as_ints(v: Seq<usize>) -> Seq<int> {
    v.map_values(|x: usize| x as int)
}

/// The positions that `find_subsequence_positions` returns, as integers.
pub open spec fn found_positions(r: Option<Vec<usize>>) -> Option<Seq<int>> {
    match r {
        Some(v) => Some(as_ints(v@)),
        None => None,
    }
}

proof fn lemma_first_at(t: Seq<char>, c: char, from: int)
    requires
        0 <= from,
    ensures
        match first_at(t, c, from) {
            Some(j) => from <= j < t.len() && t[j] == c && forall|k: int| from <= k < j ==> t[k] != c,
            None => forall|k: int| from <= k < t.len() ==> t[k] != c,
        },
    decreases t.len() - from,
{
    if from < t.len() && t[from] != c {
        lemma_first_at(t, c, from + 1);
    }
}

/// The greedy positions place `q` in `t`, after `from`.
proof fn lemma_greedy_embeds(t: Seq<char>, q: Seq<char>, from: int)
    requires
        0 <= from,
    ensures
        greedy_from(t, q, from) matches Some(pos) ==> embeds(t, q, pos) && (q.len() > 0 ==> from <= pos[0]),
    decreases q.len(),
{
    if q.len() > 0 {
        lemma_first_at(t, q[0], from);
        if let Some(j) = first_at(t, q[0], from) {
            lemma_greedy_embeds(t, q.skip(1), j + 1);
            if let Some(rest) = greedy_from(t, q.skip(1), j + 1) {
                let pos = seq![j] + rest;
                assert forall|i: int| 0 <= i < q.len() implies 0 <= #[trigger] pos[i] < t.len() && t[pos[i]]
                    == q[i] by {
                    if i > 0 {
                        assert(pos[i] == rest[i - 1]);
                        assert(q.skip(1)[i - 1] == q[i]);
                    }
                }
                assert forall|a: int, b: int| 0 <= a < b < q.len() implies #[trigger] pos[a] < #[trigger] pos[b] by {
                    assert(pos[b] == rest[b - 1]);
                    if a > 0 {
                        assert(pos[a] == rest[a - 1]);
                    } else {
                        if b - 1 > 0 {
                            assert(rest[0] < rest[b - 1]);
                        }
                    }
                }
            }
        }
    }
}

/// When `q` can be placed in `t` at indices from `from` on, the greedy
/// search finds a placement.
proof fn lemma_greedy_complete(t: Seq<char>, q: Seq<char>, from: int, pos: Seq<int>)
    requires
        0 <= from,
        embeds(t, q, pos),
        q.len() > 0 ==> from <= pos[0],
    ensures
        greedy_from(t, q, from) is Some,
    decreases q.len(),
{
    if q.len() > 0 {
        lemma_first_at(t, q[0], from);
        assert(0 <= pos[0] < t.len() && t[pos[0]] == q[0]);
        let j = first_at(t, q[0], from)->0;
        assert(j <= pos[0]);
        let rest = pos.skip(1);
        let q1 = q.skip(1);
        assert forall|i: int| 0 <= i < q1.len() implies 0 <= #[trigger] rest[i] < t.len() && t[rest[i]] == q1[i] by {
            assert(rest[i] == pos[i + 1]);
            assert(0 <= pos[i + 1] < t.len() && t[pos[i + 1]] == q[i + 1]);
        }
        assert forall|a: int, b: int| 0 <= a < b < q1.len() implies #[trigger] rest[a] < #[trigger] rest[b] by {
            assert(pos[a + 1] < pos[b + 1]);
        }
        if q1.len() > 0 {
            assert(pos[0] < pos[1]);
        }
        lemma_greedy_complete(t, q1, j + 1, rest);
    }
}

/// Fuzzy matching finds the query's characters exactly when they occur in
/// the name in order; what it finds places each character on an equal one,
/// at increasing positions.
pub proof fn law_positions_found_iff_subsequence(t: Seq<char>, q: Seq<char>)
    ensures
        greedy_positions(t, q) is Some <==> is_subsequence(t, q),
        greedy_positions(t, q) matches Some(pos) ==> embeds(t, q, pos),
{
    lemma_greedy_embeds(t, q, 0);
    if is_subsequence(t, q) {
        let pos = choose|pos: Seq<int>| embeds(t, q, pos);
        if q.len() > 0 {
            assert(0 <= pos[0]);
        }
        lemma_greedy_complete(t, q, 0, pos);
    }
}

/// Where the characters of `query_chars` fall in `text`, each as early as it
/// can after the one before; `None` when one of them cannot be placed.
pub fn find_subsequence_positions(text: &str, query_chars: &[char]) -> (r: Option<Vec<usize>>)
    ensures
        found_positions(r) == greedy_positions(text@, query_chars@),
{
    if query_chars.len() == 0 {
        let v: Vec<usize> = Vec::new();
        assert(as_ints(v@) =~= Seq::<int>::empty());
        return Some(v);
    }
    let chars = chars_of(text);
    let mut positions: Vec<usize> = Vec::new();
    let mut search_from: usize = 0;
    let mut qi: usize = 0;
    assert(query_chars@.skip(0) =~= query_chars@);
    assert(as_ints(positions@) =~= Seq::<int>::empty());
    assert(Seq::<int>::empty() + greedy_from(text@, query_chars@, 0)->0 =~= greedy_from(text@, query_chars@, 0)->0);
    while qi < query_chars.len()
        invariant
            qi <= query_chars@.len(),
            chars@ == text@,
            search_from <= chars@.len(),
            qi > 0 ==> search_from > 0,
            greedy_positions(text@, query_chars@) is Some ==> greedy_positions(text@, query_chars@)
                == Some(as_ints(positions@) + greedy_from(text@, query_chars@.skip(qi as int), search_from as int)->0),
            greedy_positions(text@, query_chars@) is None <==> greedy_from(
                text@,
                query_chars@.skip(qi as int),
                search_from as int,
            ) is None,
        decreases query_chars@.len() - qi,
    {
        let qc = query_chars[qi];
        let ghost rest_q = query_chars@.skip(qi as int);
        assert(rest_q[0] == qc);
        assert(rest_q.skip(1) =~= query_chars@.skip(qi + 1));
        let mut found: Option<usize> = None;
        let mut idx: usize = search_from;
        while idx < chars.len() && found.is_none()
            invariant
                search_from <= idx <= chars@.len(),
                chars@ == text@,
                found matches Some(j) ==> first_at(text@, qc, search_from as int) == Some(j as int) && j < chars@.len(),
                found is None ==> first_at(text@, qc, search_from as int) == first_at(text@, qc, idx as int),
            decreases chars@.len() - idx + (if found is None { 1int } else { 0int }),
        {
            if chars[idx] == qc {
                found = Some(idx);
            } else {
                idx += 1;
            }
        }
        proof {
            if found is None {
                assert(first_at(text@, qc, idx as int) is None);
            }
        }
        match found {
            None => {
                return None;
            },
            Some(pos) => {
                let ghost old_pos = positions@;
                positions.push(pos);
                assert(as_ints(positions@) =~= as_ints(old_pos) + seq![pos as int]);
                search_from = pos + 1;
                qi += 1;
            },
        }
    }
    assert(query_chars@.skip(qi as int) =~= Seq::<char>::empty());
    assert(as_ints(positions@) + Seq::<int>::empty() =~= as_ints(positions@));
    Some(positions)
}

/// Position `pos` of `t` begins a word: it is the first position, or the
/// character before it is not an ASCII letter or digit.
pub open spec fn word_boundary(t: Seq<char>, pos: int) -> bool {
    pos == 0 || (0 < pos && pos - 1 < t.len() && !is_ascii_alnum(t[pos - 1]))
}

/// Whether position `pos` of `text` begins a word.
pub fn is_word_boundary(text: &str, pos: usize) -> (r: bool)
    ensures
        r == word_boundary(text@, pos as int),
{
    if pos == 0 {
        return true;
    }
    let chars = chars_of(text);
    if pos - 1 < chars.len() {
        !ascii_alnum(chars[pos - 1])
    } else {
        false
    }
}

} // verus!
