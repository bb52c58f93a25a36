//! Scripted key input: the key names and raw terminal bytes that drive the
//! selector without a keyboard.
use vstd::prelude::*;
use vstd::utf8::{encode_utf8, encode_scalar};
use crate::text::{ascii_upper, chars_equal, chars_of, is_white, to_ascii_upper, white};

verus! {

/// A key press.
#[derive(Debug, Clone, PartialEq, Eq, Structural)]
pub enum KeyInput {
    Up,
    Down,
    Left,
    Right,
    Enter,
    Escape,
    Backspace,
    CtrlA,
    CtrlB,
    CtrlC,
    CtrlD,
    CtrlE,
    CtrlF,
    CtrlG,
    CtrlJ,
    CtrlK,
    CtrlN,
    CtrlP,
    CtrlR,
    CtrlT,
    CtrlW,
    Char(char),
}

// ---------------------------------------------------------------------------
// Token mode: comma-separated key names
// ---------------------------------------------------------------------------

/// The key a key name stands for, compared in uppercase.
pub open spec fn keyword_key(up: Seq<char>) -> Option<KeyInput> {
    if up == "UP"@ {
        Some(KeyInput::Up)
    } else if up == "DOWN"@ {
        Some(KeyInput::Down)
    } else if up == "LEFT"@ {
        Some(KeyInput::Left)
    } else if up == "RIGHT"@ {
        Some(KeyInput::Right)
    } else if up == "ENTER"@ {
        Some(KeyInput::Enter)
    } else if up == "ESC"@ {
        Some(KeyInput::Escape)
    } else if up == "BACKSPACE"@ {
        Some(KeyInput::Backspace)
    } else if up == "CTRL-A"@ || up == "CTRLA"@ {
        Some(KeyInput::CtrlA)
    } else if up == "CTRL-B"@ || up == "CTRLB"@ {
        Some(KeyInput::CtrlB)
    } else if up == "CTRL-C"@ || up == "CTRLC"@ {
        Some(KeyInput::CtrlC)
    } else if up == "CTRL-D"@ || up == "CTRLD"@ {
        Some(KeyInput::CtrlD)
    } else if up == "CTRL-E"@ || up == "CTRLE"@ {
        Some(KeyInput::CtrlE)
    } else if up == "CTRL-F"@ || up == "CTRLF"@ {
        Some(KeyInput::CtrlF)
    } else if up == "CTRL-G"@ || up == "CTRLG"@ {
        Some(KeyInput::CtrlG)
    } else if up == "CTRL-H"@ || up == "CTRLH"@ {
        Some(KeyInput::Backspace)
    } else if up == "CTRL-J"@ || up == "CTRLJ"@ {
        Some(KeyInput::CtrlJ)
    } else if up == "CTRL-K"@ || up == "CTRLK"@ {
        Some(KeyInput::CtrlK)
    } else if up == "CTRL-N"@ || up == "CTRLN"@ {
        Some(KeyInput::CtrlN)
    } else if up == "CTRL-P"@ || up == "CTRLP"@ {
        Some(KeyInput::CtrlP)
    } else if up == "CTRL-R"@ || up == "CTRLR"@ {
        Some(KeyInput::CtrlR)
    } else if up == "CTRL-T"@ || up == "CTRLT"@ {
        Some(KeyInput::CtrlT)
    } else if up == "CTRL-W"@ || up == "CTRLW"@ {
        Some(KeyInput::CtrlW)
    } else {
        None
    }
}

fn keyword(up: &Vec<char>) -> (r: Option<KeyInput>)
    ensures
        r == keyword_key(up@),
{
    if chars_equal(up, "UP") {
        Some(KeyInput::Up)
    } else if chars_equal(up, "DOWN") {
        Some(KeyInput::Down)
    } else if chars_equal(up, "LEFT") {
        Some(KeyInput::Left)
    } else if chars_equal(up, "RIGHT") {
        Some(KeyInput::Right)
    } else if chars_equal(up, "ENTER") {
        Some(KeyInput::Enter)
    } else if chars_equal(up, "ESC") {
        Some(KeyInput::Escape)
    } else if chars_equal(up, "BACKSPACE") {
        Some(KeyInput::Backspace)
    } else if chars_equal(up, "CTRL-A") || chars_equal(up, "CTRLA") {
        Some(KeyInput::CtrlA)
    } else if chars_equal(up, "CTRL-B") || chars_equal(up, "CTRLB") {
        Some(KeyInput::CtrlB)
    } else if chars_equal(up, "CTRL-C") || chars_equal(up, "CTRLC") {
        Some(KeyInput::CtrlC)
    } else if chars_equal(up, "CTRL-D") || chars_equal(up, "CTRLD") {
        Some(KeyInput::CtrlD)
    } else if chars_equal(up, "CTRL-E") || chars_equal(up, "CTRLE") {
        Some(KeyInput::CtrlE)
    } else if chars_equal(up, "CTRL-F") || chars_equal(up, "CTRLF") {
        Some(KeyInput::CtrlF)
    } else if chars_equal(up, "CTRL-G") || chars_equal(up, "CTRLG") {
        Some(KeyInput::CtrlG)
    } else if chars_equal(up, "CTRL-H") || chars_equal(up, "CTRLH") {
        Some(KeyInput::Backspace)
    } else if chars_equal(up, "CTRL-J") || chars_equal(up, "CTRLJ") {
        Some(KeyInput::CtrlJ)
    } else if chars_equal(up, "CTRL-K") || chars_equal(up, "CTRLK") {
        Some(KeyInput::CtrlK)
    } else if chars_equal(up, "CTRL-N") || chars_equal(up, "CTRLN") {
        Some(KeyInput::CtrlN)
    } else if chars_equal(up, "CTRL-P") || chars_equal(up, "CTRLP") {
        Some(KeyInput::CtrlP)
    } else if chars_equal(up, "CTRL-R") || chars_equal(up, "CTRLR") {
        Some(KeyInput::CtrlR)
    } else if chars_equal(up, "CTRL-T") || chars_equal(up, "CTRLT") {
        Some(KeyInput::CtrlT)
    } else if chars_equal(up, "CTRL-W") || chars_equal(up, "CTRLW") {
        Some(KeyInput::CtrlW)
    } else {
        None
    }
}

/// `t` without its leading white space.
pub open spec fn trim_start(t: Seq<char>) -> Seq<char>
    decreases t.len(),
{
    if t.len() > 0 && is_white(t[0]) {
        trim_start(t.skip(1))
    } else {
        t
    }
}

/// `t` with ASCII letters in uppercase.
pub open spec fn upper(t: Seq<char>) -> Seq<char> {
    t.map_values(|c: char| ascii_upper(c))
}

/// Whether `t` starts with `TYPE=`, ignoring ASCII case.
pub open spec fn has_type_prefix(t: Seq<char>) -> bool {
    t.len() >= 5 && upper(t.take(5)) == "TYPE="@
}

/// Typing character `c`.
pub open spec fn char_key(c: char) -> KeyInput {
    KeyInput::Char(c)
}

/// Typing each character of `t`.
pub open spec fn typing_keys(t: Seq<char>) -> Seq<KeyInput> {
    Seq::new(t.len(), |i: int| char_key(t[i]))
}

/// The keys one (trimmed) token stands for: a key name; `TYPE=` followed by
/// characters to type; or a single character. Anything else stands for none.
pub open spec fn token_keys(t: Seq<char>) -> Seq<KeyInput> {
    if t.len() == 0 {
        Seq::empty()
    } else {
        match keyword_key(upper(t)) {
            Some(k) => seq![k],
            None => if has_type_prefix(t) {
                typing_keys(t.skip(5))
            } else if t.len() == 1 {
                seq![KeyInput::Char(t[0])]
            } else {
                Seq::empty()
            },
        }
    }
}

/// Index of the first comma at or after `j`, or the length of `s`.
pub open spec fn next_comma(s: Seq<char>, j: int) -> int
    decreases s.len() - j,
{
    if j < 0 || j >= s.len() {
        s.len() as int
    } else if s[j] == ',' {
        j
    } else {
        next_comma(s, j + 1)
    }
}

pub proof fn lemma_next_comma(s: Seq<char>, j: int)
    requires
        0 <= j <= s.len(),
    ensures
        j <= next_comma(s, j) <= s.len(),
        next_comma(s, j) < s.len() ==> s[next_comma(s, j)] == ',',
        forall|k: int| j <= k < next_comma(s, j) ==> s[k] != ',',
    decreases s.len() - j,
{
    if j < s.len() && s[j] != ',' {
        lemma_next_comma(s, j + 1);
    }
}

/// The keys of the comma-separated tokens of `s` from index `start` on.
pub open spec fn token_mode_keys(s: Seq<char>, start: int) -> Seq<KeyInput>
    decreases s.len() - start,
{
    if start < 0 || start > s.len() {
        Seq::empty()
    } else {
        let e = next_comma(s, start);
        let here = token_keys(trim_start(s.subrange(start, e)));
        if e < s.len() && e >= start {
            here + token_mode_keys(s, e + 1)
        } else {
            here
        }
    }
}

/// Cutting the first five bytes off `t` falls on a character boundary (or
/// `t` is shorter than five bytes).
pub open spec fn slices_at_five(t: Seq<char>) -> bool {
    encode_utf8(t).len() < 5 || exists|k: int|
        0 <= k <= t.len() && #[trigger] encode_utf8(t.take(k)).len() == 5
}

/// Every comma-separated token of `s` from `start` on can have its first five
/// bytes cut off.
pub open spec fn tokens_slice_at_five(s: Seq<char>, start: int) -> bool
    decreases s.len() - start,
{
    if start < 0 || start > s.len() {
        true
    } else {
        let e = next_comma(s, start);
        slices_at_five(trim_start(s.subrange(start, e))) && (e < s.len() && e >= start
            ==> tokens_slice_at_five(s, e + 1))
    }
}

// ---------------------------------------------------------------------------
// Raw mode: terminal bytes
// ---------------------------------------------------------------------------

/// The key of an arrow sequence `ESC [ c`; any other final character is Escape.
pub open spec fn arrow_key(c: char) -> KeyInput {
    if c == 'A' {
        KeyInput::Up
    } else if c == 'B' {
        KeyInput::Down
    } else if c == 'C' {
        KeyInput::Right
    } else if c == 'D' {
        KeyInput::Left
    } else {
        KeyInput::Escape
    }
}

/// The key a single raw character stands for.
pub open spec fn raw_key(c: char) -> KeyInput {
    if c == '\u{1b}' {
        KeyInput::Escape
    } else if c == '\r' {
        KeyInput::Enter
    } else if c == '\u{7f}' {
        KeyInput::Backspace
    } else if c == '\u{01}' {
        KeyInput::CtrlA
    } else if c == '\u{02}' {
        KeyInput::CtrlB
    } else if c == '\u{03}' {
        KeyInput::CtrlC
    } else if c == '\u{04}' {
        KeyInput::CtrlD
    } else if c == '\u{05}' {
        KeyInput::CtrlE
    } else if c == '\u{06}' {
        KeyInput::CtrlF
    } else if c == '\u{07}' {
        KeyInput::CtrlG
    } else if c == '\u{0A}' {
        KeyInput::CtrlJ
    } else if c == '\u{0B}' {
        KeyInput::CtrlK
    } else if c == '\u{0E}' {
        KeyInput::CtrlN
    } else if c == '\u{10}' {
        KeyInput::CtrlP
    } else if c == '\u{12}' {
        KeyInput::CtrlR
    } else if c == '\u{14}' {
        KeyInput::CtrlT
    } else if c == '\u{17}' {
        KeyInput::CtrlW
    } else {
        KeyInput::Char(c)
    }
}

/// The keys of raw input `s` from index `i` on.
pub open spec fn raw_keys(s: Seq<char>, i: int) -> Seq<KeyInput>
    decreases s.len() - i,
{
    if i < 0 || i >= s.len() {
        Seq::empty()
    } else if s[i] == '\u{1b}' && i + 2 < s.len() && s[i + 1] == '[' {
        seq![arrow_key(s[i + 2])] + raw_keys(s, i + 3)
    } else {
        seq![raw_key(s[i])] + raw_keys(s, i + 1)
    }
}

fn map_raw_char(ch: char) -> (k: KeyInput)
    ensures
        k == raw_key(ch),
{
    if ch == '\u{1b}' {
        KeyInput::Escape
    } else if ch == '\r' {
        KeyInput::Enter
    } else if ch == '\u{7f}' {
        KeyInput::Backspace
    } else if ch == '\u{01}' {
        KeyInput::CtrlA
    } else if ch == '\u{02}' {
        KeyInput::CtrlB
    } else if ch == '\u{03}' {
        KeyInput::CtrlC
    } else if ch == '\u{04}' {
        KeyInput::CtrlD
    } else if ch == '\u{05}' {
        KeyInput::CtrlE
    } else if ch == '\u{06}' {
        KeyInput::CtrlF
    } else if ch == '\u{07}' {
        KeyInput::CtrlG
    } else if ch == '\u{0A}' {
        KeyInput::CtrlJ
    } else if ch == '\u{0B}' {
        KeyInput::CtrlK
    } else if ch == '\u{0E}' {
        KeyInput::CtrlN
    } else if ch == '\u{10}' {
        KeyInput::CtrlP
    } else if ch == '\u{12}' {
        KeyInput::CtrlR
    } else if ch == '\u{14}' {
        KeyInput::CtrlT
    } else if ch == '\u{17}' {
        KeyInput::CtrlW
    } else {
        KeyInput::Char(ch)
    }
}

fn parse_raw_mode(cs: &Vec<char>) -> (keys: Vec<KeyInput>)
    ensures
        keys@ == raw_keys(cs@, 0),
{
    let mut keys: Vec<KeyInput> = Vec::new();
    let mut i: usize = 0;
    while i < cs.len()
        invariant
            i <= cs.len(),
            keys@ + raw_keys(cs@, i as int) == raw_keys(cs@, 0),
        decreases cs.len() - i,
    {
        let ghost before = keys@;
        if cs[i] == '\u{1b}' && cs.len() - i > 2 && cs[i + 1] == '[' {
            let k = if cs[i + 2] == 'A' {
                KeyInput::Up
            } else if cs[i + 2] == 'B' {
                KeyInput::Down
            } else if cs[i + 2] == 'C' {
                KeyInput::Right
            } else if cs[i + 2] == 'D' {
                KeyInput::Left
            } else {
                KeyInput::Escape
            };
            keys.push(k);
            assert(keys@ + raw_keys(cs@, i + 3) =~= before + raw_keys(cs@, i as int));
            i += 3;
        } else {
            keys.push(map_raw_char(cs[i]));
            assert(keys@ + raw_keys(cs@, i + 1) =~= before + raw_keys(cs@, i as int));
            i += 1;
        }
    }
    assert(keys@ + raw_keys(cs@, i as int) =~= keys@);
    keys
}

fn token_keys_of(t: &Vec<char>) -> (keys: Vec<KeyInput>)
    ensures
        keys@ == token_keys(t@),
{
    if t.len() == 0 {
        return Vec::new();
    }
    let mut up: Vec<char> = Vec::new();
    let mut i: usize = 0;
    while i < t.len()
        invariant
            i <= t.len(),
            up@ == upper(t@.take(i as int)),
        decreases t.len() - i,
    {
        up.push(to_ascii_upper(t[i]));
        i += 1;
        assert(up@ =~= upper(t@.take(i as int)));
    }
    assert(t@.take(t.len() as int) =~= t@);
    match keyword(&up) {
        Some(k) => {
            let mut keys = Vec::new();
            keys.push(k);
            assert(keys@ =~= seq![k]);
            return keys;
        },
        None => {},
    }
    if t.len() >= 5 {
        let mut head: Vec<char> = Vec::new();
        let mut j: usize = 0;
        while j < 5
            invariant
                j <= 5 <= t.len() == up.len(),
                up@ == upper(t@),
                head@ == upper(t@.take(j as int)),
            decreases 5 - j,
        {
            head.push(up[j]);
            j += 1;
            assert(head@ =~= upper(t@.take(j as int)));
        }
        if chars_equal(&head, "TYPE=") {
            let mut keys: Vec<KeyInput> = Vec::new();
            let mut k: usize = 5;
            assert(keys@ =~= typing_keys(t@.subrange(5, 5)));
            while k < t.len()
                invariant
                    5 <= k <= t.len(),
                    keys@ == typing_keys(t@.subrange(5, k as int)),
                decreases t.len() - k,
            {
                let ghost before = keys@;
                keys.push(KeyInput::Char(t[k]));
                assert(keys@ == before.push(char_key(t@[k as int])));
                assert(typing_keys(t@.subrange(5, k + 1)) =~= typing_keys(t@.subrange(5, k as int)).push(
                    char_key(t@[k as int]),
                ));
                k += 1;
                assert(keys@ =~= typing_keys(t@.subrange(5, k as int)));
            }
            assert(t@.subrange(5, t.len() as int) =~= t@.skip(5));
            return keys;
        }
    }
    let mut keys = Vec::new();
    if t.len() == 1 {
        keys.push(KeyInput::Char(t[0]));
        assert(keys@ =~= seq![KeyInput::Char(t@[0])]);
    }
    keys
}

fn parse_token_mode(cs: &Vec<char>) -> (keys: Vec<KeyInput>)
    ensures
        keys@ == token_mode_keys(cs@, 0),
{
    let mut keys: Vec<KeyInput> = Vec::new();
    let mut start: usize = 0;
    let mut done = false;
    while !done
        invariant
            start <= cs.len(),
            !done ==> keys@ + token_mode_keys(cs@, start as int) == token_mode_keys(cs@, 0),
            done ==> keys@ == token_mode_keys(cs@, 0),
        decreases cs.len() - start + (if done { 0int } else { 1int }),
    {
        let mut e = start;
        while e < cs.len() && cs[e] != ','
            invariant
                start <= e <= cs.len(),
                next_comma(cs@, start as int) == next_comma(cs@, e as int),
            decreases cs.len() - e,
        {
            e += 1;
        }
        let mut j = start;
        while j < e && white(cs[j])
            invariant
                start <= j <= e <= cs.len(),
                trim_start(cs@.subrange(start as int, e as int)) == trim_start(
                    cs@.subrange(j as int, e as int),
                ),
            decreases e - j,
        {
            assert(cs@.subrange(j as int, e as int).skip(1) =~= cs@.subrange(j + 1, e as int));
            j += 1;
        }
        let mut token: Vec<char> = Vec::new();
        let mut k = j;
        while k < e
            invariant
                j <= k <= e <= cs.len(),
                token@ == cs@.subrange(j as int, k as int),
            decreases e - k,
        {
            token.push(cs[k]);
            k += 1;
            assert(token@ =~= cs@.subrange(j as int, k as int));
        }
        let ghost sub = cs@.subrange(j as int, e as int);
        assert(j < e ==> !is_white(sub[0]));
        assert(trim_start(sub) == sub);
        let ghost before = keys@;
        let mut here = token_keys_of(&token);
        keys.append(&mut here);
        if e >= cs.len() {
            assert(keys@ =~= before + token_mode_keys(cs@, start as int));
            done = true;
        } else {
            assert(keys@ + token_mode_keys(cs@, e + 1) =~= before + token_mode_keys(
                cs@,
                start as int,
            ));
            start = e + 1;
        }
    }
    keys
}

/// Whether `s` is read as comma-separated key names: it has a comma, or holds
/// only uppercase ASCII letters and dashes.
pub open spec fn is_token_mode(s: Seq<char>) -> bool {
    s.contains(',') || forall|k: int| 0 <= k < s.len() ==> (('A' <= #[trigger] s[k] && s[k] <= 'Z')
        || s[k] == '-')
}

/// The keys a scripted input stands for.
pub open spec fn scripted_keys(s: Seq<char>) -> Seq<KeyInput> {
    if s.len() == 0 {
        Seq::empty()
    } else if is_token_mode(s) {
        token_mode_keys(s, 0)
    } else {
        raw_keys(s, 0)
    }
}

/// Reads scripted key input: comma-separated key names (`UP,TYPE=abc,ENTER`)
/// or raw terminal characters.
pub fn parse_test_keys(input: &str) -> (keys: Vec<KeyInput>)
    requires
        input@.len() == 0 || !is_token_mode(input@) || tokens_slice_at_five(input@, 0),
    ensures
        keys@ == scripted_keys(input@),
{
    if input.is_empty() {
        return Vec::new();
    }
    let cs = chars_of(input);
    if token_mode(&cs) {
        parse_token_mode(&cs)
    } else {
        parse_raw_mode(&cs)
    }
}


// ---------------------------------------------------------------------------
// Which scripted inputs the parser takes
// ---------------------------------------------------------------------------

proof fn lemma_encode_concat(a: Seq<char>, b: Seq<char>)
    ensures
        encode_utf8(a + b) == encode_utf8(a) + encode_utf8(b),
    decreases a.len(),
{
    if a.len() == 0 {
        assert(a + b =~= b);
        assert(encode_utf8(a) + encode_utf8(b) =~= encode_utf8(b));
    } else {
        assert((a + b).drop_first() =~= a.drop_first() + b);
        assert((a + b)[0] == a[0]);
        lemma_encode_concat(a.drop_first(), b);
        assert(encode_scalar(a[0] as u32) + (encode_utf8(a.drop_first()) + encode_utf8(b)) =~= encode_scalar(
            a[0] as u32,
        ) + encode_utf8(a.drop_first()) + encode_utf8(b));
    }
}

/// Bytes that UTF-8 takes for `c`.
pub open spec fn utf8_width(c: char) -> nat {
    if (c as u32) <= 0x7F {
        1
    } else if (c as u32) <= 0x7FF {
        2
    } else if (c as u32) <= 0xFFFF {
        3
    } else {
        4
    }
}

proof fn lemma_encode_one(c: char)
    ensures
        encode_utf8(seq![c]).len() == utf8_width(c),
{
    assert(seq![c].drop_first() =~= Seq::<char>::empty());
    assert(encode_utf8(seq![c]) =~= encode_scalar(c as u32) + encode_utf8(Seq::<char>::empty()));
}

proof fn lemma_encode_step(t: Seq<char>, k: int)
    requires
        0 <= k < t.len(),
    ensures
        encode_utf8(t.take(k + 1)).len() == encode_utf8(t.take(k)).len() + utf8_width(t[k]),
{
    assert(t.take(k + 1) =~= t.take(k) + seq![t[k]]);
    lemma_encode_concat(t.take(k), seq![t[k]]);
    lemma_encode_one(t[k]);
}

proof fn lemma_encode_grows(t: Seq<char>, k1: int, k2: int)
    requires
        0 <= k1 <= k2 <= t.len(),
    ensures
        encode_utf8(t.take(k1)).len() + (k2 - k1) <= encode_utf8(t.take(k2)).len(),
    decreases k2 - k1,
{
    if k1 < k2 {
        lemma_encode_grows(t, k1, k2 - 1);
        lemma_encode_step(t, k2 - 1);
    }
}

fn char_utf8_width(c: char) -> (w: usize)
    ensures
        w == utf8_width(c),
{
    let v = c as u32;
    if v <= 0x7F {
        1
    } else if v <= 0x7FF {
        2
    } else if v <= 0xFFFF {
        3
    } else {
        4
    }
}

/// Whether cutting the first five bytes off `t` falls on a character boundary.
fn cuts_at_five(t: &Vec<char>) -> (r: bool)
    ensures
        r == slices_at_five(t@),
{
    let mut i: usize = 0;
    let mut bytes: usize = 0;
    assert(t@.take(0) =~= Seq::<char>::empty());
    assert(encode_utf8(Seq::<char>::empty()) =~= Seq::<u8>::empty());
    while i < t.len() && bytes < 5
        invariant
            i <= t.len(),
            bytes == encode_utf8(t@.take(i as int)).len(),
            bytes < 9,
            forall|k: int| 0 <= k < i ==> #[trigger] encode_utf8(t@.take(k)).len() < 5,
        decreases t.len() - i,
    {
        proof {
            lemma_encode_step(t@, i as int);
            assert forall|k: int| 0 <= k < i + 1 implies #[trigger] encode_utf8(t@.take(k)).len() < 5 by {
                if k == i {
                } else {
                }
            }
        }
        bytes = bytes + char_utf8_width(t[i]);
        i += 1;
    }
    proof {
        lemma_encode_grows(t@, i as int, t@.len() as int);
        assert(t@.take(t@.len() as int) =~= t@);
    }
    if bytes > 5 {
        assert forall|k: int| 0 <= k <= t@.len() implies #[trigger] encode_utf8(t@.take(k)).len() != 5 by {
            if k > i {
                lemma_encode_grows(t@, i as int, k);
            }
        }
        false
    } else {
        proof {
            if bytes == 5 {
                assert(encode_utf8(t@.take(i as int)).len() == 5);
            }
        }
        true
    }
}

fn token_mode(cs: &Vec<char>) -> (r: bool)
    ensures
        r == is_token_mode(cs@),
{
    let mut has_comma = false;
    let mut all_upper = true;
    let mut i: usize = 0;
    while i < cs.len()
        invariant
            i <= cs.len(),
            has_comma == exists|k: int| 0 <= k < i && #[trigger] cs@[k] == ',',
            all_upper == forall|k: int| 0 <= k < i ==> (('A' <= #[trigger] cs@[k] && cs@[k] <= 'Z')
                || cs@[k] == '-'),
        decreases cs.len() - i,
    {
        if cs[i] == ',' {
            has_comma = true;
        }
        if !(('A' <= cs[i] && cs[i] <= 'Z') || cs[i] == '-') {
            all_upper = false;
        }
        i += 1;
    }
    assert(has_comma == cs@.contains(','));
    has_comma || all_upper
}

/// Whether `parse_test_keys` takes `input`: every key name in a
/// comma-separated list can have its first five bytes cut off at a character
/// boundary (the check for `TYPE=`).
pub fn test_keys_parseable(input: &str) -> (b: bool)
    ensures
        b == (input@.len() == 0 || !is_token_mode(input@) || tokens_slice_at_five(input@, 0)),
{
    if input.is_empty() {
        return true;
    }
    let cs = chars_of(input);
    if !token_mode(&cs) {
        return true;
    }
    let mut start: usize = 0;
    loop
        invariant
            start <= cs.len(),
            cs@ == input@,
            input@.len() > 0,
            is_token_mode(input@),
            tokens_slice_at_five(cs@, 0) == tokens_slice_at_five(cs@, start as int),
        decreases cs.len() - start,
    {
        let mut e = start;
        while e < cs.len() && cs[e] != ','
            invariant
                start <= e <= cs.len(),
                next_comma(cs@, start as int) == next_comma(cs@, e as int),
            decreases cs.len() - e,
        {
            e += 1;
        }
        let mut j = start;
        while j < e && white(cs[j])
            invariant
                start <= j <= e <= cs.len(),
                trim_start(cs@.subrange(start as int, e as int)) == trim_start(
                    cs@.subrange(j as int, e as int),
                ),
            decreases e - j,
        {
            assert(cs@.subrange(j as int, e as int).skip(1) =~= cs@.subrange(j + 1, e as int));
            j += 1;
        }
        let mut token: Vec<char> = Vec::new();
        let mut k = j;
        while k < e
            invariant
                j <= k <= e <= cs.len(),
                token@ == cs@.subrange(j as int, k as int),
            decreases e - k,
        {
            token.push(cs[k]);
            k += 1;
            assert(token@ =~= cs@.subrange(j as int, k as int));
        }
        let ghost sub = cs@.subrange(j as int, e as int);
        assert(j < e ==> !is_white(sub[0]));
        assert(trim_start(sub) == sub);
        assert(next_comma(cs@, e as int) == e);
        assert(trim_start(cs@.subrange(start as int, e as int)) == token@);
        if !cuts_at_five(&token) {
            assert(!tokens_slice_at_five(cs@, start as int));
            return false;
        }
        if e >= cs.len() {
            assert(tokens_slice_at_five(cs@, start as int));
            return true;
        }
        assert(tokens_slice_at_five(cs@, start as int) == tokens_slice_at_five(cs@, e + 1));
        start = e + 1;
    }
}

} // verus!
