//! The command line: flags and options taken out of the arguments, which
//! subcommand runs, and the text and names the subcommands work with.
use vstd::prelude::*;
use vstd::string::StringExecFns;
use crate::text::{chars_of, starts_with, has_prefix, is_white, white, string_of, contains_seq, has_substring};
use crate::script::texts;
use crate::paths::{path_joined, join_path};
use crate::shell::sh_quoted;
use crate::selector::SelectionResult;
use crate::naming::{dated, resolved};

verus! {

// ---------------------------------------------------------------------------
// Flags and options
// ---------------------------------------------------------------------------

/// `args` without the ones equal to `flag`.
pub open spec fn without_flag(args: Seq<Seq<char>>, flag: Seq<char>) -> Seq<Seq<char>>
    decreases args.len(),
{
    if args.len() == 0 {
        Seq::empty()
    } else {
        without_flag(args.drop_last(), flag) + if args.last() == flag {
            Seq::empty()
        } else {
            seq![args.last()]
        }
    }
}

/// Takes every `flag` out of `args`; whether there was one.
pub fn extract_flag(args: &mut Vec<String>, flag: &str) -> (r: bool)
    ensures
        texts(final(args)@) == without_flag(texts(old(args)@), flag@),
        r == texts(old(args)@).contains(flag@),
{
    let mut kept: Vec<String> = Vec::new();
    let mut seen = false;
    let mut i: usize = 0;
    let flag_s = String::from_str(flag);
    while i < args.len()
        invariant
            i <= args@.len(),
            flag_s@ == flag@,
            texts(kept@) == without_flag(texts(args@).take(i as int), flag@),
            seen == texts(args@).take(i as int).contains(flag@),
        decreases args@.len() - i,
    {
        let ghost before = texts(kept@);
        proof {
            assert(texts(args@).take(i + 1).drop_last() =~= texts(args@).take(i as int));
            assert(texts(args@).take(i + 1).last() == args@[i as int]@);
        }
        if args[i] == flag_s {
            seen = true;
            assert(texts(args@).take(i + 1)[i as int] == flag@);
            assert(kept@ == kept@);
            assert(texts(kept@) =~= before + Seq::<Seq<char>>::empty());
        } else {
            kept.push(args[i].clone());
            assert(texts(kept@) =~= before + seq![args@[i as int]@]);
            proof {
                if texts(args@).take(i + 1).contains(flag@) {
                    let j = choose|j: int| 0 <= j < i + 1 && #[trigger] texts(args@).take(i + 1)[j] == flag@;
                    assert(texts(args@).take(i as int)[j] == flag@);
                }
            }
        }
        proof {
            if seen && !texts(args@).take(i as int).contains(flag@) {
                assert(texts(args@).take(i + 1)[i as int] == flag@);
            }
        }
        i += 1;
    }
    proof {
        assert(texts(args@).take(args@.len() as int) =~= texts(args@));
    }
    *args = kept;
    seen
}

/// Scans `args` for `opt value` and `opt=value`: the arguments left, and the
/// last value given. An `opt` at the very end takes itself out with no value.
pub open spec fn option_scan(args: Seq<Seq<char>>, opt: Seq<char>) -> (Seq<Seq<char>>, Option<Seq<char>>)
    decreases args.len(),
{
    if args.len() == 0 {
        (Seq::empty(), None)
    } else if args[0] == opt {
        if args.len() >= 2 {
            let (kept, last) = option_scan(args.skip(2), opt);
            (kept, if last is Some { last } else { Some(args[1]) })
        } else {
            (Seq::empty(), None)
        }
    } else if starts_with(args[0], opt + "="@) {
        let (kept, last) = option_scan(args.skip(1), opt);
        (kept, if last is Some { last } else { Some(args[0].skip(opt.len() + 1int)) })
    } else {
        let (kept, last) = option_scan(args.skip(1), opt);
        (seq![args[0]] + kept, last)
    }
}

/// Takes `opt value` and `opt=value` out of `args`; the last value given.
pub fn extract_option_with_value(args: &mut Vec<String>, opt_name: &str) -> (r: Option<String>)
    ensures
        texts(final(args)@) == option_scan(texts(old(args)@), opt_name@).0,
        crate::gituri::opt_text(r) == option_scan(texts(old(args)@), opt_name@).1,
{
    let opt = String::from_str(opt_name);
    let mut with_eq = String::from_str(opt_name);
    with_eq.append("=");
    let eq_chars = chars_of(with_eq.as_str());
    let mut kept: Vec<String> = Vec::new();
    let mut last: Option<String> = None;
    let mut i: usize = 0;
    let ghost all = texts(args@);
    proof {
        reveal_strlit("=");
        assert(all.skip(0) =~= all);
    }
    while i < args.len()
        invariant
            i <= args@.len(),
            all == texts(args@),
            opt@ == opt_name@,
            eq_chars@ == opt_name@ + "="@,
            ({
                let (k, l) = option_scan(all.skip(i as int), opt_name@);
                &&& texts(kept@) + k == option_scan(all, opt_name@).0
                &&& (if l is Some { l } else { crate::gituri::opt_text(last) }) == option_scan(all, opt_name@).1
            }),
        decreases args@.len() - i,
    {
        let ghost rest = all.skip(i as int);
        assert(rest[0] == args@[i as int]@);
        if args[i] == opt {
            if i + 1 < args.len() {
                proof {
                    assert(rest.skip(2) =~= all.skip(i + 2));
                    assert(rest[1] == args@[i + 1]@);
                }
                last = Some(args[i + 1].clone());
                i += 2;
            } else {
                proof {
                    assert(all.skip(i + 1) =~= Seq::<Seq<char>>::empty());
                }
                i += 1;
            }
        } else {
            let cs = chars_of(args[i].as_str());
            let pc = eq_chars.clone();
            let m = crate::text::matches_at(&cs, &pc, 0);
            proof {
                assert(rest.skip(1) =~= all.skip(i + 1));
                if m {
                    assert(cs@.subrange(0, pc@.len() as int) =~= cs@.take(pc@.len() as int));
                } else {
                    if starts_with(cs@, pc@) {
                        assert(cs@.subrange(0, pc@.len() as int) =~= cs@.take(pc@.len() as int));
                    }
                }
            }
            if m {
                let mut v = String::new();
                proof {
                    reveal_strlit("=");
                }
                crate::text::push_range(&mut v, &cs, eq_chars.len(), cs.len());
                assert(v@ =~= args@[i as int]@.skip(opt_name@.len() + 1int));
                last = Some(v);
            } else {
                let ghost before = texts(kept@);
                kept.push(args[i].clone());
                assert(texts(kept@) =~= before + seq![args@[i as int]@]);
            }
            i += 1;
        }
    }
    proof {
        assert(all.skip(i as int) =~= Seq::<Seq<char>>::empty());
        assert(texts(kept@) + Seq::<Seq<char>>::empty() =~= texts(kept@));
    }
    *args = kept;
    last
}


// ---------------------------------------------------------------------------
// Help and paths
// ---------------------------------------------------------------------------

/// The version that `--version` prints.
pub const VERSION: &'static str = "2.0.0";

/// The help after the first line.
pub const HELP_BODY: &'static str = " - ephemeral workspace manager\n\nTo use try, add to your shell config:\n\n  # bash/zsh (~/.bashrc or ~/.zshrc)\n  eval \"$(try init ~/src/tries)\"\n\n  # fish (~/.config/fish/config.fish)\n  eval (try init ~/src/tries | string collect)\n\nUsage:\n  try [query]           Interactive directory selector\n  try clone <url>       Clone repo into dated directory\n  try worktree <name>   Create worktree from current git repo\n  try --help            Show this help\n\nSubcommands:\n  init [path]           Output shell function definition\n  clone <url> [name]    Clone git repo into date-prefixed directory\n  worktree <name>       Create worktree in dated directory\n\nExamples:\n  try                   Open interactive selector\n  try project           Selector with initial filter\n  try clone https://github.com/user/repo\n  try worktree feature-branch\n\nManual mode (without alias):\n  try exec [query]      Output shell script to eval\n\nEnvironment variables:\n  TRY_PATH          Tries directory (default: ~/.try)\n  TRY_PROJECTS      Graduate destination (default: parent of TRY_PATH)\n\nKeyboard shortcuts:\n  \u{2191}/\u{2193}, Ctrl-P/N     Navigate\n  Enter              Select / Create new\n  Ctrl-R             Rename\n  Ctrl-G             Graduate (promote try to project)\n  Ctrl-D             Mark for deletion\n  Ctrl-T             Create new try\n  Esc                Cancel\n";

/// The help text that `--help` prints.
pub open spec fn help_text() -> Seq<char> {
    "try v"@ + VERSION@ + HELP_BODY@
}

/// The help text that `--help` prints.
pub fn global_help_text() -> (r: String)
    ensures
        r@ == help_text(),
{
    let mut r = String::from_str("try v");
    r.append(VERSION);
    r.append(HELP_BODY);
    r
}

/// `s` with every leading copy of `p` taken off (`str::trim_start_matches`).
pub open spec fn strip_all(s: Seq<char>, p: Seq<char>) -> Seq<char>
    decreases s.len(),
{
    if p.len() > 0 && starts_with(s, p) {
        strip_all(s.skip(p.len() as int), p)
    } else {
        s
    }
}

/// `path` with a leading `~` standing for `home`, when `home` is known: `~`
/// alone is `home`, `~/rest` is `rest` under `home`.
pub open spec fn tilde_expanded(path: Seq<char>, home: Option<Seq<char>>) -> Seq<char> {
    match home {
        Some(h) => if path == "~"@ {
            h
        } else if starts_with(path, "~/"@) {
            path_joined(h, strip_all(path, "~/"@))
        } else {
            path
        },
        None => path,
    }
}

/// `path` with a leading `~` expanded to `home`, the value of `HOME`.
pub fn expand_tilde_path(path: &str, home: Option<&str>) -> (r: String)
    ensures
        r@ == tilde_expanded(path@, match home {
            Some(h) => Some(h@),
            None => None,
        }),
{
    proof {
        reveal_strlit("~");
        reveal_strlit("~/");
    }
    match home {
        Some(h) => {
            let cs = chars_of(path);
            if crate::text::chars_equal(&cs, "~") {
                String::from_str(h)
            } else if has_prefix(&cs, "~/") {
                let mut start: usize = 0;
                assert(cs@.skip(0) =~= cs@);
                while cs.len() - start >= 2 && cs[start] == '~' && cs[start + 1] == '/'
                    invariant
                        start <= cs@.len(),
                        cs@ == path@,
                        strip_all(path@, "~/"@) == strip_all(cs@.skip(start as int), "~/"@),
                    decreases cs@.len() - start,
                {
                    proof {
                        reveal_strlit("~/");
                        let t = cs@.skip(start as int);
                        assert(t.take(2) =~= "~/"@);
                        assert(t.skip(2) =~= cs@.skip(start + 2));
                    }
                    start += 2;
                }
                proof {
                    reveal_strlit("~/");
                    let t = cs@.skip(start as int);
                    if starts_with(t, "~/"@) {
                        assert(t.take(2)[0] == '~' && t.take(2)[1] == '/');
                        assert(t[0] == '~' && t[1] == '/');
                        assert(false);
                    }
                }
                let mut rest = String::new();
                crate::text::push_range(&mut rest, &cs, start, cs.len());
                assert(rest@ =~= cs@.skip(start as int));
                join_path(h, rest.as_str())
            } else {
                String::from_str(path)
            }
        },
        None => String::from_str(path),
    }
}

// ---------------------------------------------------------------------------
// Subcommands
// ---------------------------------------------------------------------------

/// Which subcommand runs, by the first argument.
#[derive(Debug, Clone, Copy, PartialEq, Eq, Structural)]
pub enum Route {
    /// No arguments: help on a terminal, else nothing.
    Bare,
    Init,
    Install,
    Exec,
    Clone,
    Worktree,
    /// `.`: a worktree try of the current repository.
    Dot,
    /// `./path`: a worktree try of the repository at the path.
    DotPath,
    /// Anything else: the selector with that query.
    Query,
}

/// The subcommand for the first argument.
pub open spec fn route(command: Option<Seq<char>>) -> Route {
    match command {
        None => Route::Bare,
        Some(c) => if c == "init"@ {
            Route::Init
        } else if c == "install"@ {
            Route::Install
        } else if c == "exec"@ {
            Route::Exec
        } else if c == "clone"@ {
            Route::Clone
        } else if c == "worktree"@ {
            Route::Worktree
        } else if c == "."@ {
            Route::Dot
        } else if starts_with(c, "./"@) {
            Route::DotPath
        } else {
            Route::Query
        },
    }
}

/// The subcommand for the first argument.
pub fn route_of(command: Option<&str>) -> (r: Route)
    ensures
        r == route(match command {
            Some(c) => Some(c@),
            None => None,
        }),
{
    match command {
        None => Route::Bare,
        Some(c) => {
            let is = |lit: &str| -> (b: bool)
                ensures
                    b == (c@ == lit@),
                { crate::shell::str_is(c, lit) };
            if is("init") {
                Route::Init
            } else if is("install") {
                Route::Install
            } else if is("exec") {
                Route::Exec
            } else if is("clone") {
                Route::Clone
            } else if is("worktree") {
                Route::Worktree
            } else if is(".") {
                Route::Dot
            } else if has_prefix(&chars_of(c), "./") {
                Route::DotPath
            } else {
                Route::Query
            }
        },
    }
}

/// What `exec` does with its arguments.
#[derive(Debug, Clone, Copy, PartialEq, Eq, Structural)]
pub enum ExecAction {
    /// A worktree try named by the arguments from this index on.
    Worktree(usize),
    /// A clone of the URL at this index, with the arguments after it.
    Clone(usize),
    /// `cd` into the path at this index.
    Cd(usize),
    /// The interactive selector.
    Selector,
}

/// What `exec` does with `args`.
pub open spec fn exec_action(args: Seq<Seq<char>>) -> ExecAction {
    if args.len() == 0 {
        ExecAction::Selector
    } else {
        let first = args[0];
        if first == "."@ && args.len() >= 2 {
            ExecAction::Worktree(1)
        } else if first == "clone"@ {
            ExecAction::Clone(1)
        } else if first == "worktree"@ {
            ExecAction::Worktree(1)
        } else if first == "cd"@ && args.len() > 1 && crate::shell::looks_like_url(args[1]) {
            ExecAction::Clone(1)
        } else if first == "cd"@ && args.len() > 1 {
            ExecAction::Cd(1)
        } else if first == "cd"@ {
            ExecAction::Selector
        } else if crate::shell::looks_like_url(first) {
            ExecAction::Clone(0)
        } else {
            ExecAction::Selector
        }
    }
}

/// Whether `exec` with `args` goes to the selector, so that it needs a
/// terminal: not a subcommand with an argument, and not a URL.
pub open spec fn routes_to_selector(args: Seq<Seq<char>>) -> bool {
    !(args.len() > 1 && (args[0] == "clone"@ || args[0] == "worktree"@ || args[0] == "cd"@ || args[0] == "."@))
        && !(args.len() > 0 && crate::shell::looks_like_url(args[0]))
}


/// What `exec` does with `args`.
pub fn exec_action_of(args: &Vec<String>) -> (r: ExecAction)
    ensures
        r == exec_action(texts(args@)),
{
    if args.len() == 0 {
        return ExecAction::Selector;
    }
    let first = args[0].as_str();
    proof {
        assert(texts(args@)[0] == first@);
        if args@.len() > 1 {
            assert(texts(args@)[1] == args@[1]@);
        }
    }
    if crate::shell::str_is(first, ".") && args.len() >= 2 {
        ExecAction::Worktree(1)
    } else if crate::shell::str_is(first, "clone") {
        ExecAction::Clone(1)
    } else if crate::shell::str_is(first, "worktree") {
        ExecAction::Worktree(1)
    } else if crate::shell::str_is(first, "cd") && args.len() > 1 && crate::shell::is_url(args[1].as_str()) {
        ExecAction::Clone(1)
    } else if crate::shell::str_is(first, "cd") && args.len() > 1 {
        ExecAction::Cd(1)
    } else if crate::shell::str_is(first, "cd") {
        ExecAction::Selector
    } else if crate::shell::is_url(first) {
        ExecAction::Clone(0)
    } else {
        ExecAction::Selector
    }
}

/// Whether `exec` with `args` goes to the selector.
pub fn exec_routes_to_selector(args: &Vec<String>) -> (r: bool)
    ensures
        r == routes_to_selector(texts(args@)),
{
    let n = args.len();
    if n > 0 {
        proof {
            assert(texts(args@)[0] == args@[0]@);
        }
    }
    let sub = n > 1 && (crate::shell::str_is(args[0].as_str(), "clone") || crate::shell::str_is(
        args[0].as_str(),
        "worktree",
    ) || crate::shell::str_is(args[0].as_str(), "cd") || crate::shell::str_is(args[0].as_str(), "."));
    let url = n > 0 && crate::shell::is_url(args[0].as_str());
    !sub && !url
}

/// The name that `worktree`, `.` and `./path` give a try, before its tokens
/// are expanded: the arguments joined by spaces, each white-space character
/// made a dash.
pub open spec fn worktree_base(args: Seq<Seq<char>>) -> Seq<char> {
    crate::ansi::joined(args, " "@).map_values(|c: char| if is_white(c) { '-' } else { c })
}

/// The name for a worktree try, before its tokens are expanded.
pub fn worktree_base_name(args: &Vec<String>) -> (r: String)
    ensures
        r@ == worktree_base(texts(args@)),
{
    let mut joined = String::new();
    let mut i: usize = 0;
    while i < args.len()
        invariant
            i <= args@.len(),
            joined@ == crate::ansi::joined(texts(args@).take(i as int), " "@),
        decreases args@.len() - i,
    {
        if i > 0 {
            joined.append(" ");
        }
        joined.append(args[i].as_str());
        i += 1;
        proof {
            assert(texts(args@).take(i as int).drop_last() =~= texts(args@).take(i - 1));
            if i == 1 {
                assert(joined@ =~= crate::ansi::joined(texts(args@).take(i as int), " "@));
            }
        }
    }
    assert(texts(args@).take(args@.len() as int) =~= texts(args@));
    let cs = chars_of(joined.as_str());
    let mut out: Vec<char> = Vec::new();
    let mut k: usize = 0;
    while k < cs.len()
        invariant
            k <= cs@.len(),
            out@ == cs@.take(k as int).map_values(|c: char| if is_white(c) { '-' } else { c }),
        decreases cs@.len() - k,
    {
        let c = cs[k];
        out.push(if white(c) { '-' } else { c });
        k += 1;
        assert(out@ =~= cs@.take(k as int).map_values(|c: char| if is_white(c) { '-' } else { c }));
    }
    assert(cs@.take(cs@.len() as int) =~= cs@);
    string_of(&out)
}

/// The path argument of `init`: the second argument when the first names a
/// shell, else the first.
pub fn init_path_arg(args: &Vec<String>) -> (r: Option<String>)
    ensures
        crate::gituri::opt_text(r) == {
            let a = texts(args@);
            let named = a.len() > 0 && crate::shell::shell_named(a[0]) is Some;
            let idx = if named { 1int } else { 0int };
            if idx < a.len() { Some(a[idx]) } else { None }
        },
{
    let named = args.len() > 0 && crate::shell::parse_shell(args[0].as_str()).is_some();
    let idx: usize = if named { 1 } else { 0 };
    proof {
        if args@.len() > 0 {
            assert(texts(args@)[0] == args@[0]@);
        }
        if idx < args@.len() {
            assert(texts(args@)[idx as int] == args@[idx as int]@);
        }
    }
    if idx < args.len() {
        Some(args[idx].clone())
    } else {
        None
    }
}

/// The line that marks the shell integration in a shell's config file.
pub const INSTALL_MARKER: &'static str = "# try shell integration";

/// The block that `install` appends to a shell's config file.
pub open spec fn install_block_text(snippet: Seq<char>) -> Seq<char> {
    "\n"@ + INSTALL_MARKER@ + "\n"@ + snippet
}

/// The block that `install` appends to a shell's config file.
pub fn install_block(snippet: &str) -> (r: String)
    ensures
        r@ == install_block_text(snippet@),
{
    let mut r = String::from_str("\n");
    r.append(INSTALL_MARKER);
    r.append("\n");
    r.append(snippet);
    r
}

/// Whether a config file that reads `contents` already holds the
/// integration.
pub fn is_installed(contents: &str) -> (r: bool)
    ensures
        r == contains_seq(contents@, INSTALL_MARKER@),
{
    has_substring(&chars_of(contents), INSTALL_MARKER)
}


// ---------------------------------------------------------------------------
// Scripts for results
// ---------------------------------------------------------------------------

/// `touch` then `cd` into `p`.
pub open spec fn cd_cmd(p: Seq<char>) -> Seq<char> {
    "touch "@ + sh_quoted(p) + " && \\\n  cd "@ + sh_quoted(p)
}

/// Create, `touch` and `cd` into `p`.
pub open spec fn mkdir_cd_cmd(p: Seq<char>) -> Seq<char> {
    "mkdir -p "@ + sh_quoted(p) + " && \\\n  touch "@ + sh_quoted(p) + " && \\\n  cd "@ + sh_quoted(p)
}

/// The commands that carry out how the selector ended; `None` when it was
/// cancelled. `cwd` is the current directory, `git_file` what the `.git` file
/// of a graduated try reads, when it is a file.
pub open spec fn selection_cmds(result: SelectionResult, cwd: Option<Seq<char>>, git_file: Option<Seq<char>>) -> Option<
    Seq<Seq<char>>,
> {
    match result {
        SelectionResult::Cd(p) => Some(seq![cd_cmd(p@)]),
        SelectionResult::Mkdir(p) => Some(seq![mkdir_cd_cmd(p@)]),
        SelectionResult::Delete(paths) => Some(crate::script::delete_cmds(texts(paths@), cwd)),
        SelectionResult::Rename(a, b) => Some(
            seq!["mv "@ + sh_quoted(a@) + " "@ + sh_quoted(b@) + " && \\\n  cd "@ + sh_quoted(b@)],
        ),
        SelectionResult::Ascend(src, dest) => Some(
            seq![crate::ansi::joined(crate::script::ascend_cmds(src@, dest@, git_file), " && \\\n  "@)],
        ),
        SelectionResult::Cancelled => None,
    }
}

/// The commands that carry out how the selector ended.
pub fn selection_commands(result: &SelectionResult, cwd: Option<&str>, git_file: Option<&str>) -> (r: Option<Vec<String>>)
    ensures
        match r {
            Some(v) => selection_cmds(*result, match cwd {
                Some(d) => Some(d@),
                None => None,
            }, match git_file {
                Some(g) => Some(g@),
                None => None,
            }) == Some(texts(v@)),
            None => result is Cancelled,
        },
{
    let mut v: Vec<String> = Vec::new();
    match result {
        SelectionResult::Cd(p) => v.push(crate::shell::script_cd(p.as_str())),
        SelectionResult::Mkdir(p) => v.push(crate::shell::script_mkdir_cd(p.as_str())),
        SelectionResult::Delete(paths) => {
            v = crate::script::script_delete(paths, cwd);
        },
        SelectionResult::Rename(a, b) => v.push(crate::shell::script_rename(a.as_str(), b.as_str())),
        SelectionResult::Ascend(src, dest) => v.push(crate::script::graduate_to(src.as_str(), dest.as_str(), git_file)),
        SelectionResult::Cancelled => {
            return None;
        },
    }
    proof {
        let c = match cwd {
            Some(d) => Some(d@),
            None => None,
        };
        let g = match git_file {
            Some(x) => Some(x@),
            None => None,
        };
        match result {
            SelectionResult::Delete(_) => {},
            _ => {
                assert(texts(v@) =~= selection_cmds(*result, c, g)->0);
            },
        }
    }
    Some(v)
}

/// A path for a new try under `tries_path`, named `base` with its tokens
/// expanded, dated today, with a free name; `None` when no free name is left.
/// The date and the names taken come from the clock and the file system;
/// `new_try_target_with` is this step for given ones.
pub fn new_try_target(tries_path: &str, base: &str) -> (r: Option<String>)
    ensures
        r matches Some(t) ==> crate::selector::new_try_path(tries_path@, base@, t@),
{
    let expanded = crate::tokens::expand_tokens(base);
    let date_prefix = crate::tokens::local_date();
    let taken = |c: &String| crate::naming::taken_in(tries_path, c);
    let r = new_try_target_with(tries_path, expanded.as_str(), date_prefix.as_str(), taken);
    proof {
        if r is Some {
            let t = r->0;
            let n = choose|n: Seq<char>|
                resolved(taken, date_prefix@, expanded@, Some(n)) && t@ == path_joined(
                    tries_path@,
                    #[trigger] dated(date_prefix@, n),
                );
            crate::naming::lemma_resolved_versioned(taken, date_prefix@, expanded@, n);
            assert(crate::selector::dated_try(tries_path@, expanded@, t@));
        }
    }
    r
}

/// A path for a new try under `tries_path` for `expanded` (a name whose
/// tokens are already expanded), dated `date`: the tries path joined with
/// `date`, a dash and the free name that resolving `expanded` against
/// `taken` gives; `None` when none is left.
pub fn new_try_target_with<F: Fn(&String) -> bool>(tries_path: &str, expanded: &str, date: &str, taken: F) -> (r:
    Option<String>)
    requires
        forall|s: &String| taken.requires((s,)),
    ensures
        match r {
            Some(t) => exists|n: Seq<char>|
                resolved(taken, date@, expanded@, Some(n)) && t@ == path_joined(
                    tries_path@,
                    #[trigger] dated(date@, n),
                ),
            None => resolved(taken, date@, expanded@, None),
        },
{
    match crate::naming::resolve_unique_name_with(date, expanded, taken) {
        Some(unique) => {
            let full = crate::naming::dated_string(date, unique.as_str());
            Some(join_path(tries_path, full.as_str()))
        },
        None => None,
    }
}

/// Why `clone` cannot go ahead.
#[derive(Debug, Clone, Copy, PartialEq, Eq, Structural)]
pub enum CloneError {
    /// No name was given and the URL names no repository.
    UnparsableUri,
    /// Every candidate name is taken.
    NoFreeName,
}

/// The command that clones `url` into `target` and enters it.
pub open spec fn clone_cmd(url: Seq<char>, target: Seq<char>) -> Seq<char> {
    "git clone "@ + sh_quoted(url) + " "@ + sh_quoted(target) + " && \\\n  cd "@ + sh_quoted(target)
}

/// The clone command for `url`: into the directory `custom` (tokens
/// expanded) under the tries path, as given; else into a new dated try named
/// after the repository. The date and the names taken come from the clock
/// and the file system; `clone_script_with` is the second case for given ones.
pub fn clone_script(tries_path: &str, url: &str, custom: Option<&str>) -> (r: Result<String, CloneError>)
    ensures
        custom is None && crate::gituri::git_uri_name(url@) is None <==> r == Err::<String, CloneError>(
            CloneError::UnparsableUri,
        ),
        custom is Some ==> r is Ok,
        r matches Ok(s) ==> exists|target: Seq<char>|
            #![trigger sh_quoted(target)]
            (match custom {
                Some(c) => exists|e: Seq<char>|
                    #[trigger] crate::tokens::expansion_of(c@, e) && target == path_joined(tries_path@, e),
                None => crate::selector::dated_try(tries_path@, crate::gituri::git_uri_name(url@)->0, target),
            }) && s@ == clone_cmd(url@, target),
{
    if let Some(c) = custom {
        let name = crate::tokens::expand_tokens(c);
        let target = join_path(tries_path, name.as_str());
        let script = crate::shell::script_clone(url, target.as_str());
        assert(crate::tokens::expansion_of(c@, name@) && target@ == path_joined(tries_path@, name@));
        assert(script@ == clone_cmd(url@, target@));
        return Ok(script);
    }
    let base = match crate::gituri::parse_git_uri(url) {
        Some(n) => n,
        None => {
            return Err(CloneError::UnparsableUri);
        },
    };
    let date_prefix = crate::tokens::local_date();
    let taken = |c: &String| crate::naming::taken_in(tries_path, c);
    let r = clone_script_with(tries_path, url, base.as_str(), date_prefix.as_str(), taken);
    proof {
        if let Ok(s) = &r {
            let n = choose|n: Seq<char>|
                resolved(taken, date_prefix@, base@, Some(n)) && s@ == clone_cmd(
                    url@,
                    path_joined(tries_path@, #[trigger] dated(date_prefix@, n)),
                );
            crate::naming::lemma_resolved_versioned(taken, date_prefix@, base@, n);
            let target = path_joined(tries_path@, dated(date_prefix@, n));
            assert(crate::selector::dated_try(tries_path@, base@, target));
            assert(s@ == clone_cmd(url@, target));
        }
    }
    r
}

/// The clone command for `url` into a new try dated `date` named after
/// `base`: `Ok` with the command for the tries path joined with `date`, a
/// dash and the free name that resolving `base` against `taken` gives;
/// `NoFreeName` when none is left.
pub fn clone_script_with<F: Fn(&String) -> bool>(
    tries_path: &str,
    url: &str,
    base: &str,
    date: &str,
    taken: F,
) -> (r: Result<String, CloneError>)
    requires
        forall|s: &String| taken.requires((s,)),
    ensures
        match r {
            Ok(s) => exists|n: Seq<char>|
                resolved(taken, date@, base@, Some(n)) && s@ == clone_cmd(
                    url@,
                    path_joined(tries_path@, #[trigger] dated(date@, n)),
                ),
            Err(e) => e == CloneError::NoFreeName && resolved(taken, date@, base@, None),
        },
{
    match new_try_target_with(tries_path, base, date, taken) {
        Some(target) => Ok(crate::shell::script_clone(url, target.as_str())),
        None => Err(CloneError::NoFreeName),
    }
}

} // verus!
