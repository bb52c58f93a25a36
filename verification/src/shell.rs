//! Shell scripts that the `try` shell function evaluates, and shell integration.
use vstd::prelude::*;
use vstd::string::StringExecFns;
use crate::text::{
    chars_of, chars_equal, to_ascii_lower, ascii_lower, starts_with, ends_with, contains_seq, has_prefix,
    has_suffix, has_substring,
};

verus! {

/// The body of a POSIX single-quoted word for `s`: each `'` becomes `'"'"'`.
pub open spec fn sh_quoted_body(s: Seq<char>) -> Seq<char>
    decreases s.len(),
{
    if s.len() == 0 {
        Seq::empty()
    } else {
        sh_quoted_body(s.drop_last()) + if s.last() == '\'' {
            "'\"'\"'"@
        } else {
            seq![s.last()]
        }
    }
}

/// `s` as one POSIX shell word, literal under any shell expansion.
pub open spec fn sh_quoted(s: Seq<char>) -> Seq<char> {
    seq!['\''] + sh_quoted_body(s) + seq!['\'']
}

/// Quotes `s` for a POSIX shell.
pub fn q(s: &str) -> (r: String)
    ensures
        r@ == sh_quoted(s@),
{
    let cs = chars_of(s);
    let mut r = String::new();
    r.push('\'');
    let mut i: usize = 0;
    while i < cs.len()
        invariant
            i <= cs.len(),
            cs@ == s@,
            r@ == seq!['\''] + sh_quoted_body(cs@.take(i as int)),
        decreases cs.len() - i,
    {
        assert(cs@.take(i + 1).drop_last() =~= cs@.take(i as int));
        if cs[i] == '\'' {
            r.append("'\"'\"'");
        } else {
            r.push(cs[i]);
        }
        i += 1;
        assert(r@ =~= seq!['\''] + sh_quoted_body(cs@.take(i as int)));
    }
    assert(cs@.take(cs.len() as int) =~= cs@);
    r.push('\'');
    r
}

/// The body of a PowerShell single-quoted string for `s`: each `'` doubled.
pub open spec fn pwsh_quoted_body(s: Seq<char>) -> Seq<char>
    decreases s.len(),
{
    if s.len() == 0 {
        Seq::empty()
    } else {
        pwsh_quoted_body(s.drop_last()) + if s.last() == '\'' {
            seq!['\'', '\'']
        } else {
            seq![s.last()]
        }
    }
}

pub open spec fn pwsh_quoted(s: Seq<char>) -> Seq<char> {
    seq!['\''] + pwsh_quoted_body(s) + seq!['\'']
}

/// Quotes `s` as a PowerShell single-quoted string.
pub fn pwsh_quote(s: &str) -> (r: String)
    ensures
        r@ == pwsh_quoted(s@),
{
    let cs = chars_of(s);
    let mut r = String::new();
    r.push('\'');
    let mut i: usize = 0;
    while i < cs.len()
        invariant
            i <= cs.len(),
            cs@ == s@,
            r@ == seq!['\''] + pwsh_quoted_body(cs@.take(i as int)),
        decreases cs.len() - i,
    {
        assert(cs@.take(i + 1).drop_last() =~= cs@.take(i as int));
        if cs[i] == '\'' {
            r.push('\'');
            r.push('\'');
        } else {
            r.push(cs[i]);
        }
        i += 1;
        assert(r@ =~= seq!['\''] + pwsh_quoted_body(cs@.take(i as int)));
    }
    assert(cs@.take(cs.len() as int) =~= cs@);
    r.push('\'');
    r
}

/// `touch` then `cd` into `path`.
pub fn script_cd(path: &str) -> (r: String)
    ensures
        r@ == "touch "@ + sh_quoted(path@) + " && \\\n  cd "@ + sh_quoted(path@),
{
    let qp = q(path);
    let mut r = String::from_str("touch ");
    r.append(qp.as_str());
    r.append(" && \\\n  cd ");
    r.append(qp.as_str());
    r
}

/// Create, `touch` and `cd` into `path`.
pub fn script_mkdir_cd(path: &str) -> (r: String)
    ensures
        r@ == "mkdir -p "@ + sh_quoted(path@) + " && \\\n  touch "@ + sh_quoted(path@)
            + " && \\\n  cd "@ + sh_quoted(path@),
{
    let qp = q(path);
    let mut r = String::from_str("mkdir -p ");
    r.append(qp.as_str());
    r.append(" && \\\n  touch ");
    r.append(qp.as_str());
    r.append(" && \\\n  cd ");
    r.append(qp.as_str());
    r
}

/// Clone `url` into `target`, then `cd` into it.
pub fn script_clone(url: &str, target: &str) -> (r: String)
    ensures
        r@ == "git clone "@ + sh_quoted(url@) + " "@ + sh_quoted(target@) + " && \\\n  cd "@
            + sh_quoted(target@),
{
    let qt = q(target);
    let mut r = String::from_str("git clone ");
    r.append(q(url).as_str());
    r.append(" ");
    r.append(qt.as_str());
    r.append(" && \\\n  cd ");
    r.append(qt.as_str());
    r
}

/// Rename `old` to `new`, then `cd` into it.
pub fn script_rename(old: &str, new: &str) -> (r: String)
    ensures
        r@ == "mv "@ + sh_quoted(old@) + " "@ + sh_quoted(new@) + " && \\\n  cd "@ + sh_quoted(
            new@,
        ),
{
    let qn = q(new);
    let mut r = String::from_str("mv ");
    r.append(q(old).as_str());
    r.append(" ");
    r.append(qn.as_str());
    r.append(" && \\\n  cd ");
    r.append(qn.as_str());
    r
}

/// Whether `s` is exactly `lit`.
pub fn str_is(s: &str, lit: &str) -> (r: bool)
    ensures
        r == (s@ == lit@),
{
    let cs = chars_of(s);
    chars_equal(&cs, lit)
}

/// The views of an optional string.
pub open spec fn view_opt(o: Option<String>) -> Option<Seq<char>> {
    match o {
        Some(s) => Some(s@),
        None => None,
    }
}

/// The shell function that `try init` prints for `shell`, running the binary
/// at `binary_path` with tries under `path`.
pub open spec fn init_snippet_text(shell: Seq<char>, binary_path: Seq<char>, path: Seq<char>) -> Option<Seq<char>> {
    if shell == "fish"@ {
        Some("function try\n  set -l out ("@ + sh_quoted(binary_path) + " exec --path "@ + sh_quoted(path)
            + " $argv 2>/dev/tty)\n  set -l rc $status\n  if test $rc -eq 0\n    eval $out\n  end\n  return $rc\nend\n"@)
    } else if shell == "pwsh"@ {
        Some("function try {\n  $out = & "@ + pwsh_quoted(binary_path) + " exec --path "@ + pwsh_quoted(path)
            + " @args 2>/dev/tty\n  if ($LASTEXITCODE -eq 0) { Invoke-Expression $out }\n}\n"@)
    } else if shell == "bash"@ || shell == "zsh"@ {
        Some("try() {\n  local out\n  out=$("@ + sh_quoted(binary_path) + " exec --path "@ + sh_quoted(path)
            + " \"$@\" 2>/dev/tty)\n  local rc=$?\n  [ $rc -eq 0 ] && eval \"$out\"\n  return $rc\n}\n"@)
    } else {
        None
    }
}

/// The shell function for `shell`, or `None` for an unknown shell.
pub fn init_snippet(shell: &str, binary_path: &str, path: &str) -> (r: Option<String>)
    ensures
        view_opt(r) == init_snippet_text(shell@, binary_path@, path@),
{
    if str_is(shell, "fish") {
        let mut r = String::from_str("function try\n  set -l out (");
        r.append(q(binary_path).as_str());
        r.append(" exec --path ");
        r.append(q(path).as_str());
        r.append(" $argv 2>/dev/tty)\n  set -l rc $status\n  if test $rc -eq 0\n    eval $out\n  end\n  return $rc\nend\n");
        Some(r)
    } else if str_is(shell, "pwsh") {
        let mut r = String::from_str("function try {\n  $out = & ");
        r.append(pwsh_quote(binary_path).as_str());
        r.append(" exec --path ");
        r.append(pwsh_quote(path).as_str());
        r.append(" @args 2>/dev/tty\n  if ($LASTEXITCODE -eq 0) { Invoke-Expression $out }\n}\n");
        Some(r)
    } else if str_is(shell, "bash") || str_is(shell, "zsh") {
        let mut r = String::from_str("try() {\n  local out\n  out=$(");
        r.append(q(binary_path).as_str());
        r.append(" exec --path ");
        r.append(q(path).as_str());
        r.append(" \"$@\" 2>/dev/tty)\n  local rc=$?\n  [ $rc -eq 0 ] && eval \"$out\"\n  return $rc\n}\n");
        Some(r)
    } else {
        None
    }
}

/// `t` with ASCII letters in lowercase.
pub open spec fn lower(t: Seq<char>) -> Seq<char> {
    t.map_values(|c: char| ascii_lower(c))
}

fn lowercase(s: &str) -> (r: String)
    ensures
        r@ == lower(s@),
{
    let cs = chars_of(s);
    let mut r = String::new();
    let mut i: usize = 0;
    while i < cs.len()
        invariant
            i <= cs.len(),
            cs@ == s@,
            r@ == lower(cs@.take(i as int)),
        decreases cs.len() - i,
    {
        r.push(to_ascii_lower(cs[i]));
        i += 1;
        assert(r@ =~= lower(cs@.take(i as int)));
    }
    assert(cs@.take(cs.len() as int) =~= cs@);
    r
}

/// The shell a name stands for, compared case-insensitively; `powershell` is `pwsh`.
pub open spec fn shell_named(shell: Seq<char>) -> Option<Seq<char>> {
    let n = lower(shell);
    if n == "bash"@ || n == "zsh"@ || n == "fish"@ || n == "pwsh"@ {
        Some(n)
    } else if n == "powershell"@ {
        Some("pwsh"@)
    } else {
        None
    }
}

/// Reads a shell name given on the command line.
pub fn parse_shell(shell: &str) -> (r: Option<String>)
    ensures
        view_opt(r) == shell_named(shell@),
{
    let normalized = lowercase(shell);
    let n = normalized.as_str();
    if str_is(n, "bash") || str_is(n, "zsh") || str_is(n, "fish") || str_is(n, "pwsh") {
        Some(normalized)
    } else if str_is(n, "powershell") {
        Some(String::from_str("pwsh"))
    } else {
        None
    }
}

/// The shell named in `$SHELL`, or PowerShell when `$PSModulePath` is set.
pub open spec fn shell_from_env_spec(shell_env: Option<Seq<char>>, ps_module_path: Option<Seq<char>>) -> Option<Seq<char>> {
    let sh = match shell_env {
        Some(v) => v,
        None => Seq::empty(),
    };
    if contains_seq(sh, "fish"@) {
        Some("fish"@)
    } else if contains_seq(sh, "zsh"@) {
        Some("zsh"@)
    } else if contains_seq(sh, "bash"@) {
        Some("bash"@)
    } else if ps_module_path matches Some(p) && p.len() > 0 {
        Some("pwsh"@)
    } else {
        None
    }
}

/// The shell a parent process name stands for.
pub open spec fn shell_from_process_spec(parent: Seq<char>) -> Option<Seq<char>> {
    if contains_seq(parent, "fish"@) {
        Some("fish"@)
    } else if contains_seq(parent, "zsh"@) {
        Some("zsh"@)
    } else if contains_seq(parent, "bash"@) {
        Some("bash"@)
    } else if contains_seq(lower(parent), "pwsh"@) || contains_seq(lower(parent), "powershell"@) {
        Some("pwsh"@)
    } else {
        None
    }
}

pub open spec fn opt_str_view(o: Option<&str>) -> Option<Seq<char>> {
    match o {
        Some(s) => Some(s@),
        None => None,
    }
}

/// Detects the shell from the environment alone: `$SHELL`, then `$PSModulePath`.
pub fn shell_from_env(shell_env: Option<&str>, ps_module_path: Option<&str>) -> (r: Option<String>)
    ensures
        view_opt(r) == shell_from_env_spec(opt_str_view(shell_env), opt_str_view(ps_module_path)),
{
    let sh = match shell_env {
        Some(v) => chars_of(v),
        None => Vec::new(),
    };
    if has_substring(&sh, "fish") {
        return Some(String::from_str("fish"));
    }
    if has_substring(&sh, "zsh") {
        return Some(String::from_str("zsh"));
    }
    if has_substring(&sh, "bash") {
        return Some(String::from_str("bash"));
    }
    match ps_module_path {
        Some(p) => {
            if !p.is_empty() {
                return Some(String::from_str("pwsh"));
            }
        },
        None => {},
    }
    None
}

/// Detects the shell from the name of the parent process.
pub fn shell_from_process(parent: &str) -> (r: Option<String>)
    ensures
        view_opt(r) == shell_from_process_spec(parent@),
{
    let p = chars_of(parent);
    if has_substring(&p, "fish") {
        return Some(String::from_str("fish"));
    }
    if has_substring(&p, "zsh") {
        return Some(String::from_str("zsh"));
    }
    if has_substring(&p, "bash") {
        return Some(String::from_str("bash"));
    }
    let low = chars_of(lowercase(parent).as_str());
    if has_substring(&low, "pwsh") || has_substring(&low, "powershell") {
        return Some(String::from_str("pwsh"));
    }
    None
}

/// Detects the shell: `$SHELL`, then `$PSModulePath`, then the parent process
/// name (which a caller need only look up when the environment decides nothing).
pub fn detect_shell_with(shell_env: Option<&str>, ps_module_path: Option<&str>, parent: Option<&str>) -> (r: Option<String>)
    ensures
        view_opt(r) == match shell_from_env_spec(opt_str_view(shell_env), opt_str_view(ps_module_path)) {
            Some(s) => Some(s),
            None => match parent {
                Some(p) => shell_from_process_spec(p@),
                None => None,
            },
        },
{
    match shell_from_env(shell_env, ps_module_path) {
        Some(s) => Some(s),
        None => match parent {
            Some(p) => shell_from_process(p),
            None => None,
        },
    }
}

/// The startup file `try install` writes to for `shell`; `bashrc_exists` says
/// whether `~/.bashrc` exists, `profile` is `$PROFILE`, and `windows_profile`
/// is the default PowerShell profile on Windows (`None` elsewhere).
pub open spec fn rc_file_spec(
    shell: Seq<char>,
    profile: Option<Seq<char>>,
    bashrc_exists: bool,
    windows_profile: Option<Seq<char>>,
) -> Option<Seq<char>> {
    if shell == "fish"@ {
        Some("~/.config/fish/config.fish"@)
    } else if shell == "zsh"@ {
        Some("~/.zshrc"@)
    } else if shell == "bash"@ {
        if bashrc_exists {
            Some("~/.bashrc"@)
        } else {
            Some("~/.bash_profile"@)
        }
    } else if shell == "pwsh"@ {
        if profile matches Some(p) && p.len() > 0 {
            profile
        } else {
            match windows_profile {
                Some(w) => Some(w),
                None => Some("~/.config/powershell/Microsoft.PowerShell_profile.ps1"@),
            }
        }
    } else {
        None
    }
}

/// The startup file for `shell`.
pub fn shell_rc_file_with(
    shell: &str,
    profile: Option<&str>,
    bashrc_exists: bool,
    windows_profile: Option<&str>,
) -> (r: Option<String>)
    ensures
        view_opt(r) == rc_file_spec(shell@, opt_str_view(profile), bashrc_exists, opt_str_view(windows_profile)),
{
    if str_is(shell, "fish") {
        Some(String::from_str("~/.config/fish/config.fish"))
    } else if str_is(shell, "zsh") {
        Some(String::from_str("~/.zshrc"))
    } else if str_is(shell, "bash") {
        if bashrc_exists {
            Some(String::from_str("~/.bashrc"))
        } else {
            Some(String::from_str("~/.bash_profile"))
        }
    } else if str_is(shell, "pwsh") {
        match profile {
            Some(p) => {
                if !p.is_empty() {
                    return Some(String::from_str(p));
                }
            },
            None => {},
        }
        match windows_profile {
            Some(w) => Some(String::from_str(w)),
            None => Some(String::from_str("~/.config/powershell/Microsoft.PowerShell_profile.ps1")),
        }
    } else {
        None
    }
}

/// Whether an argument looks like a git URL.
pub open spec fn looks_like_url(s: Seq<char>) -> bool {
    starts_with(s, "http://"@) || starts_with(s, "https://"@) || starts_with(s, "git@"@)
        || ends_with(s, ".git"@) || (s.contains(':') && !starts_with(s, "/"@) && !contains_seq(
        s,
        "://"@,
    ))
}

/// Whether `s` looks like a git URL.
pub fn is_url(s: &str) -> (r: bool)
    ensures
        r == looks_like_url(s@),
{
    let cs = chars_of(s);
    if has_prefix(&cs, "http://") || has_prefix(&cs, "https://") || has_prefix(&cs, "git@")
        || has_suffix(&cs, ".git") {
        return true;
    }
    let colon = has_substring(&cs, ":");
    proof {
        reveal_strlit(":");
        if colon {
            let i = choose|i: int| crate::text::occurs_at(cs@, ":"@, i);
            assert(cs@.subrange(i, i + 1)[0] == ':');
            assert(cs@[i] == ':');
        }
        if cs@.contains(':') {
            let i = choose|i: int| 0 <= i < cs@.len() && cs@[i] == ':';
            assert(cs@.subrange(i, i + 1) =~= ":"@);
            assert(crate::text::occurs_at(cs@, ":"@, i));
        }
    }
    colon && !has_prefix(&cs, "/") && !has_substring(&cs, "://")
}

} // verus!
