//! The shell scripts that `try` prints for its shell function to evaluate.
use vstd::prelude::*;
use vstd::string::StringExecFns;
use crate::shell::{q, sh_quoted, script_cd};
use crate::ansi::joined;
use crate::paths::{parent_or_dot, parent_or_current, path_file_name, file_name, path_joined, join_path, path_parent,
    parent_path, path_absolute, is_absolute};
use crate::text::{chars_of, starts_with, trimmed, trim_white, push_range};

verus! {

/// The line that opens every script: a hint for anyone who reads it instead
/// of letting the shell function run it.
pub const SCRIPT_WARNING: &'static str = "# if you can read this, you didn't launch try from an alias. run try --help.";

/// The views of a list of strings.
pub open spec fn texts(v: Seq<String>) -> Seq<Seq<char>> {
    v.map_values(|s: String| s@)
}

/// The text of a script: the warning line, then the commands chained with
/// `&&`, one per line, the later ones indented.
pub open spec fn script_of(cmds: Seq<Seq<char>>) -> Seq<char> {
    SCRIPT_WARNING@ + "\n"@ + if cmds.len() == 0 {
        Seq::empty()
    } else {
        joined(cmds, " && \\\n  "@) + "\n"@
    }
}

/// The script for `cmds`, as the shell function receives it.
pub fn script_text(cmds: &Vec<String>) -> (r: String)
    ensures
        r@ == script_of(texts(cmds@)),
{
    let mut r = String::from_str(SCRIPT_WARNING);
    r.append("\n");
    let ghost head = r@;
    let mut i: usize = 0;
    while i < cmds.len()
        invariant
            i <= cmds@.len(),
            head == SCRIPT_WARNING@ + "\n"@,
            r@ == head + joined(texts(cmds@).take(i as int), " && \\\n  "@),
        decreases cmds@.len() - i,
    {
        if i > 0 {
            r.append(" && \\\n  ");
        }
        r.append(cmds[i].as_str());
        i += 1;
        proof {
            assert(texts(cmds@).take(i as int).drop_last() =~= texts(cmds@).take(i - 1));
            assert(r@ =~= head + joined(texts(cmds@).take(i as int), " && \\\n  "@));
        }
    }
    if cmds.len() > 0 {
        r.append("\n");
    }
    proof {
        assert(texts(cmds@).take(cmds@.len() as int) =~= texts(cmds@));
        if cmds@.len() == 0 {
            assert(r@ =~= script_of(texts(cmds@)));
        }
    }
    r
}

/// The message that a worktree try echoes.
pub open spec fn worktree_note(source: Seq<char>) -> Seq<char> {
    "echo "@ + sh_quoted("Using git worktree to create this trial from "@ + source + "."@)
}

/// Commands that create `target` as a detached worktree of the repository
/// at `repo`, when there is one, and `cd` into it.
pub open spec fn worktree_with_repo_cmds(target: Seq<char>, repo: Seq<char>) -> Seq<Seq<char>> {
    seq![
        "mkdir -p "@ + sh_quoted(target),
        worktree_note(repo),
        "/usr/bin/env sh -c 'if git -C "@ + sh_quoted(repo) + " rev-parse --is-inside-work-tree >/dev/null 2>&1; then repo=$(git -C "@
            + sh_quoted(repo) + " rev-parse --show-toplevel); git -C \"$repo\" worktree add --detach "@ + sh_quoted(target)
            + " >/dev/null 2>&1 || true; fi; exit 0'"@,
        "touch "@ + sh_quoted(target) + " && \\\n  cd "@ + sh_quoted(target),
    ]
}

/// Commands that create `target` as a detached worktree of the repository
/// that the current directory, `cwd`, belongs to, and `cd` into it.
pub open spec fn worktree_current_cmds(target: Seq<char>, cwd: Seq<char>) -> Seq<Seq<char>> {
    seq![
        "mkdir -p "@ + sh_quoted(target),
        worktree_note(cwd),
        "/usr/bin/env sh -c 'if git rev-parse --is-inside-work-tree >/dev/null 2>&1; then repo=$(git rev-parse --show-toplevel); git -C \"$repo\" worktree add --detach "@
            + sh_quoted(target) + " >/dev/null 2>&1 || true; fi; exit 0'"@,
        "touch "@ + sh_quoted(target) + " && \\\n  cd "@ + sh_quoted(target),
    ]
}

fn worktree_note_of(source: &str) -> (r: String)
    ensures
        r@ == worktree_note(source@),
{
    let mut msg = String::from_str("Using git worktree to create this trial from ");
    msg.append(source);
    msg.append(".");
    let mut r = String::from_str("echo ");
    r.append(q(msg.as_str()).as_str());
    r
}

/// The commands for a worktree try of the repository at `repo`.
pub fn script_worktree_with_repo(target: &str, repo: &str) -> (r: Vec<String>)
    ensures
        texts(r@) == worktree_with_repo_cmds(target@, repo@),
{
    let qt = q(target);
    let qr = q(repo);
    let mut mk = String::from_str("mkdir -p ");
    mk.append(qt.as_str());
    let mut wt = String::from_str("/usr/bin/env sh -c 'if git -C ");
    wt.append(qr.as_str());
    wt.append(" rev-parse --is-inside-work-tree >/dev/null 2>&1; then repo=$(git -C ");
    wt.append(qr.as_str());
    wt.append(" rev-parse --show-toplevel); git -C \"$repo\" worktree add --detach ");
    wt.append(qt.as_str());
    wt.append(" >/dev/null 2>&1 || true; fi; exit 0'");
    let mut r: Vec<String> = Vec::new();
    r.push(mk);
    r.push(worktree_note_of(repo));
    r.push(wt);
    r.push(script_cd(target));
    assert(texts(r@) =~= worktree_with_repo_cmds(target@, repo@));
    r
}

/// The commands for a worktree try of the repository around `cwd`, the
/// current directory.
pub fn script_worktree_current(target: &str, cwd: &str) -> (r: Vec<String>)
    ensures
        texts(r@) == worktree_current_cmds(target@, cwd@),
{
    let qt = q(target);
    let mut mk = String::from_str("mkdir -p ");
    mk.append(qt.as_str());
    let mut wt = String::from_str(
        "/usr/bin/env sh -c 'if git rev-parse --is-inside-work-tree >/dev/null 2>&1; then repo=$(git rev-parse --show-toplevel); git -C \"$repo\" worktree add --detach ",
    );
    wt.append(qt.as_str());
    wt.append(" >/dev/null 2>&1 || true; fi; exit 0'");
    let mut r: Vec<String> = Vec::new();
    r.push(mk);
    r.push(worktree_note_of(cwd));
    r.push(wt);
    r.push(script_cd(target));
    assert(texts(r@) =~= worktree_current_cmds(target@, cwd@));
    r
}


/// The commands that remove each of `paths` by its name, from inside its
/// directory; paths without a last component are passed over.
pub open spec fn removal_cmds(paths: Seq<Seq<char>>) -> Seq<Seq<char>>
    decreases paths.len(),
{
    if paths.len() == 0 {
        Seq::empty()
    } else {
        removal_cmds(paths.drop_last()) + match path_file_name(paths.last()) {
            Some(n) => seq!["test -d "@ + sh_quoted(n) + " && rm -rf "@ + sh_quoted(n)],
            None => Seq::empty(),
        }
    }
}

/// The commands that delete `paths`: into the directory of the first, remove
/// each, then back to `cwd` (or, without one, to that directory).
pub open spec fn delete_cmds(paths: Seq<Seq<char>>, cwd: Option<Seq<char>>) -> Seq<Seq<char>> {
    if paths.len() == 0 {
        Seq::empty()
    } else {
        let base = parent_or_dot(paths[0]);
        let pwd = match cwd {
            Some(d) => d,
            None => base,
        };
        seq!["cd "@ + sh_quoted(base)] + removal_cmds(paths) + seq![
            "cd "@ + sh_quoted(pwd) + " 2>/dev/null || cd "@ + sh_quoted(base),
        ]
    }
}

/// The commands that delete `paths`; `cwd` is the current directory, if it
/// can be read.
pub fn script_delete(paths: &Vec<String>, cwd: Option<&str>) -> (r: Vec<String>)
    ensures
        texts(r@) == delete_cmds(texts(paths@), match cwd {
            Some(d) => Some(d@),
            None => None,
        }),
{
    let mut cmds: Vec<String> = Vec::new();
    if paths.len() == 0 {
        assert(texts(cmds@) =~= Seq::<Seq<char>>::empty());
        return cmds;
    }
    let base = parent_or_current(paths[0].as_str());
    let pwd = match cwd {
        Some(d) => String::from_str(d),
        None => base.clone(),
    };
    let mut first = String::from_str("cd ");
    first.append(q(base.as_str()).as_str());
    cmds.push(first);
    let mut i: usize = 0;
    while i < paths.len()
        invariant
            i <= paths@.len(),
            paths@.len() > 0,
            texts(cmds@) == seq!["cd "@ + sh_quoted(base@)] + removal_cmds(texts(paths@).take(i as int)),
        decreases paths@.len() - i,
    {
        let ghost before = texts(cmds@);
        proof {
            assert(texts(paths@).take(i + 1).drop_last() =~= texts(paths@).take(i as int));
            assert(texts(paths@).take(i + 1).last() == paths@[i as int]@);
        }
        match file_name(paths[i].as_str()) {
            Some(n) => {
                let qn = q(n.as_str());
                let mut c = String::from_str("test -d ");
                c.append(qn.as_str());
                c.append(" && rm -rf ");
                c.append(qn.as_str());
                cmds.push(c);
                assert(texts(cmds@) =~= before + seq!["test -d "@ + sh_quoted(n@) + " && rm -rf "@ + sh_quoted(n@)]);
            },
            None => {
                assert(texts(cmds@) =~= before + Seq::<Seq<char>>::empty());
            },
        }
        i += 1;
    }
    let mut last = String::from_str("cd ");
    last.append(q(pwd.as_str()).as_str());
    last.append(" 2>/dev/null || cd ");
    last.append(q(base.as_str()).as_str());
    let ghost before = texts(cmds@);
    cmds.push(last);
    proof {
        assert(texts(paths@).take(paths@.len() as int) =~= texts(paths@));
        assert(texts(cmds@) =~= before.push(last@));
        assert(texts(cmds@) =~= delete_cmds(texts(paths@), match cwd {
            Some(d) => Some(d@),
            None => None,
        }));
    }
    cmds
}

/// Where a `.git` file that reads `content` points: what follows `gitdir:`
/// at its start, trimmed; `None` when it does not begin so.
pub open spec fn gitdir_target(content: Seq<char>) -> Option<Seq<char>> {
    let t = content.skip(crate::text::skip_white(content, 0));
    if starts_with(t, "gitdir:"@) {
        Some(trimmed(t.skip(7)))
    } else {
        None
    }
}

/// The repository whose worktree `path` is, from the `gitdir:` target of its
/// `.git` file: three levels above the target (`<repo>/.git/worktrees/<name>`).
pub open spec fn repo_root_of(path: Seq<char>, target: Seq<char>) -> Option<Seq<char>> {
    let p = if path_absolute(target) {
        target
    } else {
        path_joined(path, target)
    };
    match path_parent(p) {
        Some(a) => match path_parent(a) {
            Some(b) => path_parent(b),
            None => None,
        },
        None => None,
    }
}

/// The commands that move the try at `path` to `dest`, leave a link in its
/// place and `cd` to it. `git_file` is what the `.git` file inside the try
/// reads, when it is a file: a worktree is moved with git.
pub open spec fn ascend_cmds(path: Seq<char>, dest: Seq<char>, git_file: Option<Seq<char>>) -> Seq<Seq<char>> {
    let tries_dir = parent_or_dot(path);
    let basename = match path_file_name(path) {
        Some(n) => n,
        None => Seq::empty(),
    };
    let moves = match git_file {
        Some(content) => match gitdir_target(content) {
            Some(target) => {
                let root = match repo_root_of(path, target) {
                    Some(r) => r,
                    None => tries_dir,
                };
                seq!["cd "@ + sh_quoted(root), "git worktree move "@ + sh_quoted(path) + " "@ + sh_quoted(dest)]
            },
            None => seq!["cd "@ + sh_quoted(tries_dir), "mv "@ + sh_quoted(basename) + " "@ + sh_quoted(dest)],
        },
        None => seq!["cd "@ + sh_quoted(tries_dir), "mv "@ + sh_quoted(basename) + " "@ + sh_quoted(dest)],
    };
    moves + seq![
        "ln -s "@ + sh_quoted(dest) + " "@ + sh_quoted(path),
        "echo "@ + sh_quoted("Graduated: "@ + basename + " → "@ + dest),
        "touch "@ + sh_quoted(dest) + " && \\\n  cd "@ + sh_quoted(dest),
    ]
}

/// Where a `.git` file points, if it begins with `gitdir:`.
fn gitdir_target_of(content: &str) -> (r: Option<String>)
    ensures
        match r {
            Some(t) => gitdir_target(content@) == Some(t@),
            None => gitdir_target(content@) is None,
        },
{
    let cs = chars_of(content);
    let mut a: usize = 0;
    while a < cs.len() && crate::text::white(cs[a])
        invariant
            a <= cs@.len(),
            cs@ == content@,
            crate::text::skip_white(cs@, 0) == crate::text::skip_white(cs@, a as int),
        decreases cs@.len() - a,
    {
        a += 1;
    }
    let mut t: Vec<char> = Vec::new();
    let mut i = a;
    while i < cs.len()
        invariant
            a <= i <= cs@.len(),
            t@ == cs@.subrange(a as int, i as int),
        decreases cs@.len() - i,
    {
        t.push(cs[i]);
        i += 1;
        assert(t@ =~= cs@.subrange(a as int, i as int));
    }
    assert(t@ =~= content@.skip(crate::text::skip_white(content@, 0)));
    if crate::text::has_prefix(&t, "gitdir:") {
        proof {
            reveal_strlit("gitdir:");
        }
        let mut rest = String::new();
        push_range(&mut rest, &t, 7, t.len());
        assert(rest@ =~= t@.skip(7));
        Some(trim_white(rest.as_str()))
    } else {
        None
    }
}

/// The last component of `p`, or nothing.
pub open spec fn basename_of(p: Seq<char>) -> Seq<char> {
    match path_file_name(p) {
        Some(n) => n,
        None => Seq::empty(),
    }
}

/// The text `script_ascend` gives for moving the try at `path` to `dest`:
/// the two commands that move it, then, each on a line of its own that
/// begins with `+`, the link, the message, `touch` and `cd`.
pub open spec fn ascend_script(path: Seq<char>, dest: Seq<char>, git_file: Option<Seq<char>>) -> Seq<char> {
    let c = ascend_cmds(path, dest, git_file);
    let more = " && \\\n+  "@;
    c[0] + " && \\\n  "@ + c[1] + more + c[2] + more + c[3] + more + "touch "@ + sh_quoted(dest) + more
        + "cd "@ + sh_quoted(dest)
}

/// Graduates the try at `path` into `projects_dir`: moves it to the
/// directory of the same name there, leaves a link in its place and `cd`s to
/// it, as one command (see `ascend_script`); `git_file` is what the `.git`
/// file inside the try reads, when it is a file.
pub fn script_ascend(path: &str, projects_dir: &str, git_file: Option<&str>) -> (r: String)
    ensures
        r@ == ascend_script(path@, path_joined(projects_dir@, basename_of(path@)), match git_file {
            Some(c) => Some(c@),
            None => None,
        }),
{
    let basename = match file_name(path) {
        Some(n) => n,
        None => String::new(),
    };
    proof {
        proof_basename_empty();
        reveal_strlit(" && \\\n  ");
        reveal_strlit(" && \\\n+  ");
        reveal_strlit("touch ");
        reveal_strlit("cd ");
    }
    let dest = join_path(projects_dir, basename.as_str());
    let cmds = ascend_commands(path, dest.as_str(), git_file);
    assert(texts(cmds@).len() == 5);
    assert(cmds@.len() == texts(cmds@).len());
    let qd = q(dest.as_str());
    let mut r = String::new();
    r.append(cmds[0].as_str());
    r.append(" && \\\n  ");
    r.append(cmds[1].as_str());
    r.append(" && \\\n+  ");
    r.append(cmds[2].as_str());
    r.append(" && \\\n+  ");
    r.append(cmds[3].as_str());
    r.append(" && \\\n+  touch ");
    r.append(qd.as_str());
    r.append(" && \\\n+  cd ");
    r.append(qd.as_str());
    proof {
        reveal_strlit(" && \\\n+  touch ");
        reveal_strlit(" && \\\n+  cd ");
        assert(cmds@[0]@ == texts(cmds@)[0]);
        assert(cmds@[1]@ == texts(cmds@)[1]);
        assert(cmds@[2]@ == texts(cmds@)[2]);
        assert(cmds@[3]@ == texts(cmds@)[3]);
        assert(r@ =~= ascend_script(path@, dest@, match git_file {
            Some(c) => Some(c@),
            None => None,
        }));
    }
    r
}

/// The commands that move the try at `path` to `dest`, leave a link in its
/// place and `cd` to it, joined into one command, one per line; `git_file` is
/// what the `.git` file inside the try reads, when it is a file.
pub fn graduate_to(path: &str, dest: &str, git_file: Option<&str>) -> (r: String)
    ensures
        r@ == joined(ascend_cmds(path@, dest@, match git_file {
            Some(c) => Some(c@),
            None => None,
        }), " && \\\n  "@),
{
    let cmds = ascend_commands(path, dest, git_file);
    join_cmds(&cmds)
}

/// The commands that move the try at `path` to `dest`, leave a link in its
/// place and `cd` to it.
fn ascend_commands(path: &str, dest: &str, git_file: Option<&str>) -> (cmds: Vec<String>)
    ensures
        texts(cmds@) == ascend_cmds(path@, dest@, match git_file {
            Some(c) => Some(c@),
            None => None,
        }),
{
    let tries_dir = parent_or_current(path);
    let basename = match file_name(path) {
        Some(n) => n,
        None => String::new(),
    };
    let target = match git_file {
        Some(content) => gitdir_target_of(content),
        None => None,
    };
    let mut cmds: Vec<String> = Vec::new();
    match target {
        Some(t) => {
            let p = if is_absolute(t.as_str()) {
                t.clone()
            } else {
                join_path(path, t.as_str())
            };
            let root = match parent_path(p.as_str()) {
                Some(a) => match parent_path(a.as_str()) {
                    Some(b) => parent_path(b.as_str()),
                    None => None,
                },
                None => None,
            };
            let root = match root {
                Some(r) => r,
                None => tries_dir.clone(),
            };
            let mut c1 = String::from_str("cd ");
            c1.append(q(root.as_str()).as_str());
            let mut c2 = String::from_str("git worktree move ");
            c2.append(q(path).as_str());
            c2.append(" ");
            c2.append(q(dest).as_str());
            cmds.push(c1);
            cmds.push(c2);
        },
        None => {
            let mut c1 = String::from_str("cd ");
            c1.append(q(tries_dir.as_str()).as_str());
            let mut c2 = String::from_str("mv ");
            c2.append(q(basename.as_str()).as_str());
            c2.append(" ");
            c2.append(q(dest).as_str());
            cmds.push(c1);
            cmds.push(c2);
        },
    }
    let mut c3 = String::from_str("ln -s ");
    c3.append(q(dest).as_str());
    c3.append(" ");
    c3.append(q(path).as_str());
    let mut msg = String::from_str("Graduated: ");
    msg.append(basename.as_str());
    msg.append(" → ");
    msg.append(dest);
    let mut c4 = String::from_str("echo ");
    c4.append(q(msg.as_str()).as_str());
    cmds.push(c3);
    cmds.push(c4);
    cmds.push(script_cd(dest));
    proof {
        proof_basename_empty();
        assert(texts(cmds@) =~= ascend_cmds(path@, dest@, match git_file {
            Some(c) => Some(c@),
            None => None,
        }));
    }
    cmds
}


proof fn proof_basename_empty()
    ensures
        ""@ == Seq::<char>::empty(),
{
    reveal_strlit("");
}

/// `cmds` joined into one command with `&&`, one per line.
pub fn join_cmds(cmds: &Vec<String>) -> (r: String)
    ensures
        r@ == joined(texts(cmds@), " && \\\n  "@),
{
    let mut r = String::new();
    let mut i: usize = 0;
    while i < cmds.len()
        invariant
            i <= cmds@.len(),
            r@ == joined(texts(cmds@).take(i as int), " && \\\n  "@),
        decreases cmds@.len() - i,
    {
        if i > 0 {
            r.append(" && \\\n  ");
        }
        r.append(cmds[i].as_str());
        i += 1;
        proof {
            assert(texts(cmds@).take(i as int).drop_last() =~= texts(cmds@).take(i - 1));
            if i == 1 {
                assert(r@ =~= joined(texts(cmds@).take(i as int), " && \\\n  "@));
            }
        }
    }
    assert(texts(cmds@).take(cmds@.len() as int) =~= texts(cmds@));
    r
}

} // verus!
