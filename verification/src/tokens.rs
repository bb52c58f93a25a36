//! Name tokens: `{date}`, `{time}`, `{ts}` and `{rand}` in a try's name, and
//! the date prefix that names of tries begin with.
use vstd::prelude::*;
use vstd::string::StringExecFns;
use crate::text::{chars_of, decimal, has_substring, matches_at, occurs_at, contains_seq, push_decimal, string_of};

verus! {

// ---------------------------------------------------------------------------
// Replacing every occurrence
// ---------------------------------------------------------------------------

/// `s[i..]` with every occurrence of `pat`, scanned left to right without
/// overlap, replaced by `rep` (`str::replace` for a non-empty `pat`).
pub open spec fn replaced_from(s: Seq<char>, pat: Seq<char>, rep: Seq<char>, i: int) -> Seq<char>
    decreases s.len() - i,
{
    if i < 0 || i >= s.len() || pat.len() == 0 {
        if 0 <= i < s.len() {
            s.skip(i)
        } else {
            Seq::empty()
        }
    } else if occurs_at(s, pat, i) {
        rep + replaced_from(s, pat, rep, i + pat.len())
    } else {
        seq![s[i]] + replaced_from(s, pat, rep, i + 1)
    }
}

/// `s` with every occurrence of `pat` replaced by `rep`.
pub open spec fn replaced(s: Seq<char>, pat: Seq<char>, rep: Seq<char>) -> Seq<char> {
    replaced_from(s, pat, rep, 0)
}

pub proof fn lemma_replaced_absent(s: Seq<char>, pat: Seq<char>, rep: Seq<char>, i: int)
    requires
        0 <= i <= s.len(),
        pat.len() > 0,
        !contains_seq(s, pat),
    ensures
        replaced_from(s, pat, rep, i) == s.skip(i),
    decreases s.len() - i,
{
    if i < s.len() {
        assert(!occurs_at(s, pat, i));
        lemma_replaced_absent(s, pat, rep, i + 1);
        assert(seq![s[i]] + s.skip(i + 1) =~= s.skip(i));
    } else {
        assert(s.skip(i) =~= Seq::<char>::empty());
    }
}

/// Appends `src` to `out`.
pub fn append_chars(out: &mut Vec<char>, src: &Vec<char>)
    ensures
        final(out)@ == old(out)@ + src@,
{
    let mut j: usize = 0;
    while j < src.len()
        invariant
            j <= src.len(),
            out@ == old(out)@ + src@.take(j as int),
        decreases src.len() - j,
    {
        out.push(src[j]);
        j += 1;
        assert(out@ =~= old(out)@ + src@.take(j as int));
    }
    assert(src@.take(src.len() as int) =~= src@);
}

/// `s` with every occurrence of `pat` replaced by `rep`.
pub fn replace_all(s: &Vec<char>, pat: &str, rep: &str) -> (r: Vec<char>)
    requires
        pat@.len() > 0,
    ensures
        r@ == replaced(s@, pat@, rep@),
{
    let p = chars_of(pat);
    let rp = chars_of(rep);
    let mut out: Vec<char> = Vec::new();
    let mut i: usize = 0;
    while i < s.len()
        invariant
            i <= s.len(),
            p@ == pat@,
            rp@ == rep@,
            p@.len() > 0,
            out@ + replaced_from(s@, pat@, rep@, i as int) == replaced(s@, pat@, rep@),
        decreases s.len() - i,
    {
        let ghost before = out@;
        if matches_at(s, &p, i) {
            append_chars(&mut out, &rp);
            assert(out@ + replaced_from(s@, pat@, rep@, i + p.len()) =~= before + replaced_from(
                s@,
                pat@,
                rep@,
                i as int,
            ));
            i += p.len();
        } else {
            out.push(s[i]);
            assert(out@ + replaced_from(s@, pat@, rep@, i + 1) =~= before + replaced_from(
                s@,
                pat@,
                rep@,
                i as int,
            ));
            i += 1;
        }
    }
    out
}


// ---------------------------------------------------------------------------
// Token values
// ---------------------------------------------------------------------------

/// The lowercase hexadecimal digit for `d` (0..=15).
pub open spec fn hex_digit(d: nat) -> char {
    if d < 10 {
        (48 + d) as char
    } else {
        (87 + d) as char
    }
}

/// Two lowercase hexadecimal digits for `b`.
pub open spec fn hex_byte(b: u8) -> Seq<char> {
    seq![hex_digit(b as nat / 16), hex_digit(b as nat % 16)]
}

/// Six lowercase hexadecimal digits for three bytes, most significant first
/// (`{:06x}` of the number they make).
pub open spec fn hex6(bytes: [u8; 3]) -> Seq<char> {
    hex_byte(bytes[0]) + hex_byte(bytes[1]) + hex_byte(bytes[2])
}

fn hex_char(d: u8) -> (c: char)
    requires
        d < 16,
    ensures
        c == hex_digit(d as nat),
{
    if d < 10 {
        (48u8 + d) as char
    } else {
        (87u8 + d) as char
    }
}

/// The `{rand}` value for three random bytes.
pub fn rand_hex(bytes: [u8; 3]) -> (r: String)
    ensures
        r@ == hex6(bytes),
{
    let mut r = String::new();
    let mut i: usize = 0;
    while i < 3
        invariant
            i <= 3,
            r@ == if i == 0 {
                Seq::<char>::empty()
            } else if i == 1 {
                hex_byte(bytes[0])
            } else if i == 2 {
                hex_byte(bytes[0]) + hex_byte(bytes[1])
            } else {
                hex6(bytes)
            },
        decreases 3 - i,
    {
        let b = bytes[i];
        r.push(hex_char(b / 16));
        r.push(hex_char(b % 16));
        proof {
            if i == 0 {
                assert(r@ =~= hex_byte(bytes[0]));
            } else if i == 1 {
                assert(r@ =~= hex_byte(bytes[0]) + hex_byte(bytes[1]));
            } else {
                assert(r@ =~= hex6(bytes));
            }
        }
        i += 1;
    }
    r
}

/// Decimal notation of a signed number.
pub open spec fn signed_decimal(n: int) -> Seq<char> {
    if n < 0 {
        "-"@ + decimal((-n) as nat)
    } else {
        decimal(n as nat)
    }
}

/// The decimal text of `n` (`i64::to_string`).
pub fn signed_text(n: i64) -> (r: String)
    ensures
        r@ == signed_decimal(n as int),
{
    let mut r = String::new();
    if n < 0 {
        r.append("-");
        let m: u64 = if n == i64::MIN {
            9223372036854775808u64
        } else {
            (-n) as u64
        };
        push_decimal(&mut r, m);
        proof {
            reveal_strlit("-");
        }
    } else {
        push_decimal(&mut r, n as u64);
    }
    r
}

/// `name` with its tokens replaced, in this order: `{date}`, `{time}`, `{ts}`,
/// `{rand}`.
pub open spec fn tokens_expanded(
    name: Seq<char>,
    date: Seq<char>,
    time: Seq<char>,
    ts: Seq<char>,
    rand: Seq<char>,
) -> Seq<char> {
    replaced(
        replaced(replaced(replaced(name, "{date}"@, date), "{time}"@, time), "{ts}"@, ts),
        "{rand}"@,
        rand,
    )
}

/// `name` with `{date}`, `{time}`, `{ts}` and `{rand}` replaced by the given
/// values: a date, a time of day, a Unix timestamp and three random bytes.
pub fn expand_tokens_with(name: &str, date: &str, time: &str, ts: i64, rand: [u8; 3]) -> (r: String)
    ensures
        r@ == tokens_expanded(name@, date@, time@, signed_decimal(ts as int), hex6(rand)),
{
    proof {
        reveal_strlit("{date}");
        reveal_strlit("{time}");
        reveal_strlit("{ts}");
        reveal_strlit("{rand}");
    }
    let cs = chars_of(name);
    let a = replace_all(&cs, "{date}", date);
    let b = replace_all(&a, "{time}", time);
    let tss = signed_text(ts);
    let c = replace_all(&b, "{ts}", tss.as_str());
    let h = rand_hex(rand);
    let d = replace_all(&c, "{rand}", h.as_str());
    string_of(&d)
}

/// Today's date, `YYYY-MM-DD`, in the local time zone
/// (`chrono::Local::now().format("%Y-%m-%d")`). Nothing is stated of the
/// value: it depends on the clock and the time zone.
#[verifier::external_body]
pub fn local_date() -> (r: String) {
    chrono::Local::now().format("%Y-%m-%d").to_string()
}

/// The local time of day, `HH-MM-SS`
/// (`chrono::Local::now().format("%H-%M-%S")`). Nothing is stated of the
/// value: it depends on the clock and the time zone.
#[verifier::external_body]
fn local_time() -> (r: String) {
    chrono::Local::now().format("%H-%M-%S").to_string()
}

/// The current Unix timestamp in seconds (`chrono::Local::now().timestamp()`).
/// Nothing is stated of the value: it depends on the clock.
#[verifier::external_body]
fn local_timestamp() -> (r: i64) {
    chrono::Local::now().timestamp()
}

/// Three random bytes (`rand::Rng::gen` on `rand::thread_rng()`). Nothing is
/// stated of the value: it is random.
#[verifier::external_body]
fn random_bytes() -> (r: [u8; 3]) {
    rand::Rng::gen::<[u8; 3]>(&mut rand::thread_rng())
}

/// `e` is `name` with its tokens replaced by some date, time of day,
/// timestamp and random value.
pub open spec fn expansion_of(name: Seq<char>, e: Seq<char>) -> bool {
    exists|date: Seq<char>, time: Seq<char>, ts: i64, rand: [u8; 3]|
        e == tokens_expanded(name, date, time, signed_decimal(ts as int), hex6(rand))
}

/// `name` with its tokens replaced by the current date, time, timestamp and
/// a random value; each is read only when its token is there.
pub fn expand_tokens(name: &str) -> (r: String)
    ensures
        expansion_of(name@, r@),
{
    proof {
        reveal_strlit("{date}");
        reveal_strlit("{time}");
        reveal_strlit("{ts}");
        reveal_strlit("{rand}");
    }
    let mut cur = chars_of(name);
    let ghost mut date_v: Seq<char> = Seq::empty();
    let ghost mut time_v: Seq<char> = Seq::empty();
    let ghost mut ts_v: i64 = 0;
    let ghost mut rand_v: [u8; 3] = [0u8, 0u8, 0u8];
    if has_substring(&cur, "{date}") {
        let d = local_date();
        cur = replace_all(&cur, "{date}", d.as_str());
        proof {
            date_v = d@;
        }
    } else {
        proof {
            lemma_replaced_absent(name@, "{date}"@, date_v, 0);
            assert(name@.skip(0) =~= name@);
        }
    }
    let ghost after_date = cur@;
    assert(after_date == replaced(name@, "{date}"@, date_v));
    if has_substring(&cur, "{time}") {
        let t = local_time();
        cur = replace_all(&cur, "{time}", t.as_str());
        proof {
            time_v = t@;
        }
    } else {
        proof {
            lemma_replaced_absent(after_date, "{time}"@, time_v, 0);
            assert(after_date.skip(0) =~= after_date);
        }
    }
    let ghost after_time = cur@;
    if has_substring(&cur, "{ts}") {
        let n = local_timestamp();
        let nt = signed_text(n);
        cur = replace_all(&cur, "{ts}", nt.as_str());
        proof {
            ts_v = n;
        }
    } else {
        proof {
            lemma_replaced_absent(after_time, "{ts}"@, signed_decimal(ts_v as int), 0);
            assert(after_time.skip(0) =~= after_time);
        }
    }
    let ghost after_ts = cur@;
    if has_substring(&cur, "{rand}") {
        let b = random_bytes();
        let h = rand_hex(b);
        cur = replace_all(&cur, "{rand}", h.as_str());
        proof {
            rand_v = b;
        }
    } else {
        proof {
            lemma_replaced_absent(after_ts, "{rand}"@, hex6(rand_v), 0);
            assert(after_ts.skip(0) =~= after_ts);
        }
    }
    let r = string_of(&cur);
    assert(r@ == tokens_expanded(name@, date_v, time_v, signed_decimal(ts_v as int), hex6(rand_v)));
    r
}

// ---------------------------------------------------------------------------
// Date prefix
// ---------------------------------------------------------------------------

/// Whether `s` matches the pattern `^\d{4}-\d{2}-\d{2}-`.
pub uninterp spec fn date_prefixed(s: Seq<char>) -> bool;

/// Whether `name` begins with a date and a dash, `YYYY-MM-DD-`
/// (`regex::Regex::is_match` with `^\d{4}-\d{2}-\d{2}-`). The contract names
/// the answer, states where the pattern puts its dashes, and that ASCII
/// digits in the other places match (`\d` takes other Unicode digits too).
#[verifier::external_body]
fn has_date_prefix(name: &str) -> (r: bool)
    ensures
        r == date_prefixed(name@),
        r ==> name@.len() >= 11 && name@[4] == '-' && name@[7] == '-' && name@[10] == '-',
        (name@.len() >= 11 && name@[4] == '-' && name@[7] == '-' && name@[10] == '-' && forall|k: int|
            0 <= k < 10 && k != 4 && k != 7 ==> '0' <= #[trigger] name@[k] <= '9') ==> r,
{
    regex::Regex::new(r"^\d{4}-\d{2}-\d{2}-").unwrap().is_match(name)
}

/// The date a try's name begins with: its first ten characters, when the
/// name begins `YYYY-MM-DD-`.
pub fn date_prefix_of(name: &str) -> (r: Option<String>)
    ensures
        match r {
            Some(p) => date_prefixed(name@) && p@ == name@.take(10),
            None => !date_prefixed(name@),
        },
{
    if has_date_prefix(name) {
        let cs = chars_of(name);
        let mut p = String::new();
        crate::text::push_range(&mut p, &cs, 0, 10);
        assert(p@ =~= name@.take(10));
        Some(p)
    } else {
        None
    }
}

} // verus!
