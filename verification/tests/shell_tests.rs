use try_rs::cli::{
    clone_script, exec_action_of, exec_routes_to_selector, expand_tilde_path, extract_flag,
    extract_option_with_value, global_help_text, init_path_arg, install_block, is_installed,
    route_of, selection_commands, worktree_base_name, CloneError, ExecAction, Route, VERSION,
};
use try_rs::gituri::parse_git_uri;
use try_rs::script::{
    graduate_to, join_cmds, script_ascend, script_delete, script_text, script_worktree_current,
    script_worktree_with_repo, SCRIPT_WARNING,
};
use try_rs::selector::SelectionResult;
use try_rs::shell::{
    detect_shell_with, init_snippet, is_url, parse_shell, pwsh_quote, q, script_cd, script_clone,
    script_mkdir_cd, script_rename, shell_rc_file_with,
};

fn strings(v: &[&str]) -> Vec<String> {
    v.iter().map(|s| s.to_string()).collect()
}

#[test]
fn script_q_simple() {
    assert_eq!(q("simple"), "'simple'");
}

#[test]
fn detect_shell_prefers_shell_env() {
    let detected = detect_shell_with(Some("/bin/zsh"), None, Some("bash"));
    assert_eq!(detected, Some("zsh".to_string()));
}

#[test]
fn detect_shell_uses_psmodulepath_for_pwsh() {
    let detected = detect_shell_with(None, Some("/tmp/modules"), None);
    assert_eq!(detected, Some("pwsh".to_string()));
}

#[test]
fn detect_shell_falls_back_to_parent_process() {
    let detected = detect_shell_with(None, None, Some("pwsh"));
    assert_eq!(detected, Some("pwsh".to_string()));
}

#[test]
fn shell_rc_file_paths_match_shells() {
    assert_eq!(
        shell_rc_file_with("fish", None, false, None),
        Some("~/.config/fish/config.fish".to_string())
    );
    assert_eq!(
        shell_rc_file_with("zsh", None, false, None),
        Some("~/.zshrc".to_string())
    );
}

#[test]
fn shell_rc_file_bash_prefers_bashrc() {
    let with_bashrc = shell_rc_file_with("bash", None, true, None);
    let without_bashrc = shell_rc_file_with("bash", None, false, None);
    assert_eq!(with_bashrc, Some("~/.bashrc".to_string()));
    assert_eq!(without_bashrc, Some("~/.bash_profile".to_string()));
}

#[test]
fn shell_rc_file_pwsh_uses_profile_env() {
    let rc = shell_rc_file_with("pwsh", Some("/tmp/p.ps1"), false, None);
    assert_eq!(rc, Some("/tmp/p.ps1".to_string()));
}

#[test]
fn init_snippet_bash_uses_rust_binary_and_no_ruby() {
    let snippet = init_snippet("bash", "/tmp/try-rs-bin", "/tmp/tries").expect("snippet");
    assert!(snippet.contains("out=$('/tmp/try-rs-bin' exec --path '/tmp/tries' \"$@\" 2>/dev/tty)"));
    assert!(snippet.contains("local rc=$?"));
    assert!(snippet.contains("return $rc"));
    assert!(!snippet.contains("ruby"));
}

#[test]
fn init_snippet_fish_uses_fish_syntax() {
    let snippet = init_snippet("fish", "/tmp/try-rs-bin", "/tmp/tries").expect("snippet");
    assert!(snippet.contains("set -l out ('/tmp/try-rs-bin' exec --path '/tmp/tries' $argv 2>/dev/tty)"));
    assert!(snippet.contains("set -l rc $status"));
    assert!(snippet.contains("eval $out"));
    assert!(!snippet.contains("ruby"));
}

#[test]
fn init_snippet_pwsh_uses_invoke_expression() {
    let snippet = init_snippet("pwsh", "/tmp/try-rs-bin", "/tmp/tries").expect("snippet");
    assert!(snippet.contains("$out = & '/tmp/try-rs-bin' exec --path '/tmp/tries' @args 2>/dev/tty"));
    assert!(snippet.contains("Invoke-Expression $out"));
    assert!(!snippet.contains("ruby"));
}

#[test]
fn script_q_with_single_quote() {
    assert_eq!(q("it's"), "'it'\"'\"'s'");
}

#[test]
fn script_q_with_multiple_single_quotes() {
    assert_eq!(q("a'b'c"), "'a'\"'\"'b'\"'\"'c'");
}

#[test]
fn script_q_empty_string() {
    assert_eq!(q(""), "''");
}

#[test]
fn script_q_with_spaces() {
    assert_eq!(q("hello world"), "'hello world'");
}

#[test]
fn script_q_malicious_literalized() {
    assert_eq!(
        q("'; rm -rf /; echo '"),
        "''\"'\"'; rm -rf /; echo '\"'\"''"
    );
}

#[test]
fn script_q_command_substitution_literalized() {
    assert_eq!(q("$(whoami)"), "'$(whoami)'");
}

#[test]
fn script_q_backticks_literalized() {
    assert_eq!(q("`whoami`"), "'`whoami`'");
}

#[test]
fn script_emit_script_exact_format() {
    let cmds = strings(&["command1", "command2", "command3"]);
    let actual = script_text(&cmds);
    let expected = format!(
        "{}\ncommand1 && \\\n  command2 && \\\n  command3\n",
        SCRIPT_WARNING
    );
    assert_eq!(actual, expected);
}

#[test]
fn script_emit_script_single_command() {
    let cmds = strings(&["one"]);
    let actual = script_text(&cmds);
    let expected = format!("{}\none\n", SCRIPT_WARNING);
    assert_eq!(actual, expected);
}

#[test]
fn script_emit_script_no_commands_is_only_the_warning() {
    let cmds: Vec<String> = Vec::new();
    assert_eq!(script_text(&cmds), format!("{}\n", SCRIPT_WARNING));
}

#[test]
fn script_cd_command() {
    assert_eq!(
        script_cd("/tmp/path"),
        "touch '/tmp/path' && \\\n  cd '/tmp/path'"
    );
}

#[test]
fn script_mkdir_cd_command() {
    assert_eq!(
        script_mkdir_cd("/tmp/path"),
        "mkdir -p '/tmp/path' && \\\n  touch '/tmp/path' && \\\n  cd '/tmp/path'"
    );
}

#[test]
fn script_clone_command() {
    assert_eq!(
        script_clone("https://example.com/repo.git", "/tmp/repo"),
        "git clone 'https://example.com/repo.git' '/tmp/repo' && \\\n  cd '/tmp/repo'"
    );
}

#[test]
fn script_delete_commands() {
    let paths = strings(&["/tmp/tries/a", "/tmp/tries/b c"]);
    let cwd = "/home/me";
    assert_eq!(
        script_delete(&paths, Some(cwd)),
        vec![
            "cd '/tmp/tries'".to_string(),
            "test -d 'a' && rm -rf 'a'".to_string(),
            "test -d 'b c' && rm -rf 'b c'".to_string(),
            format!("cd {} 2>/dev/null || cd '/tmp/tries'", q(cwd)),
        ]
    );
}

#[test]
fn script_delete_without_cwd_returns_to_base() {
    let paths = strings(&["/tmp/tries/a"]);
    assert_eq!(
        script_delete(&paths, None),
        vec![
            "cd '/tmp/tries'".to_string(),
            "test -d 'a' && rm -rf 'a'".to_string(),
            "cd '/tmp/tries' 2>/dev/null || cd '/tmp/tries'".to_string(),
        ]
    );
    assert!(script_delete(&Vec::new(), None).is_empty());
}

#[test]
fn script_ascend_commands() {
    assert_eq!(
        script_ascend("/tries/src", "/projects", None),
        "cd '/tries' && \\\n  mv 'src' '/projects/src' && \\\n+  ln -s '/projects/src' '/tries/src' && \\\n+  echo 'Graduated: src → /projects/src' && \\\n+  touch '/projects/src' && \\\n+  cd '/projects/src'"
    );
}

#[test]
fn script_ascend_moves_worktree_with_git() {
    let out = script_ascend(
        "/tries/wt",
        "/projects",
        Some("gitdir: /repos/app/.git/worktrees/wt\n"),
    );
    assert!(out.starts_with("cd '/repos/app' && \\\n  git worktree move '/tries/wt' '/projects/wt'"));
    let plain = script_ascend("/tries/wt", "/projects", Some("not a gitdir"));
    let chosen = graduate_to("/tries/2024-01-01-wt", "/projects/wt", None);
    assert!(chosen.starts_with("cd '/tries' && \\\n  mv '2024-01-01-wt' '/projects/wt'"));
    assert!(plain.starts_with("cd '/tries' && \\\n  mv 'wt' '/projects/wt'"));
}

#[test]
fn script_rename_command() {
    assert_eq!(
        script_rename("old-name", "new-name"),
        "mv 'old-name' 'new-name' && \\\n  cd 'new-name'"
    );
}

#[test]
fn script_worktree_commands() {
    let with_repo = script_worktree_with_repo("/t/2025-01-01-x", "/src/app");
    assert_eq!(with_repo.len(), 4);
    assert_eq!(with_repo[0], "mkdir -p '/t/2025-01-01-x'");
    assert_eq!(
        with_repo[1],
        "echo 'Using git worktree to create this trial from /src/app.'"
    );
    assert!(with_repo[2].contains("git -C '/src/app' rev-parse --is-inside-work-tree"));
    assert_eq!(with_repo[3], script_cd("/t/2025-01-01-x"));
    let current = script_worktree_current("/t/x", "/home/me/app");
    assert_eq!(
        current[1],
        "echo 'Using git worktree to create this trial from /home/me/app.'"
    );
    assert!(current[2].contains("worktree add --detach '/t/x'"));
}

#[test]
fn join_cmds_chains_commands() {
    assert_eq!(join_cmds(&strings(&["a", "b"])), "a && \\\n  b");
    assert_eq!(join_cmds(&Vec::new()), "");
}

#[test]
fn parse_git_uri_https_with_git() {
    assert_eq!(
        parse_git_uri("https://github.com/user/repo.git"),
        Some("user-repo".to_string())
    );
}

#[test]
fn parse_git_uri_https_without_git() {
    assert_eq!(
        parse_git_uri("https://github.com/user/repo"),
        Some("user-repo".to_string())
    );
}

#[test]
fn parse_git_uri_http_with_git() {
    assert_eq!(
        parse_git_uri("http://github.com/user/repo.git"),
        Some("user-repo".to_string())
    );
}

#[test]
fn parse_git_uri_ssh_with_git() {
    assert_eq!(
        parse_git_uri("git@github.com:user/repo.git"),
        Some("user-repo".to_string())
    );
}

#[test]
fn parse_git_uri_ssh_without_git() {
    assert_eq!(
        parse_git_uri("git@github.com:user/repo"),
        Some("user-repo".to_string())
    );
}

#[test]
fn parse_git_uri_nested_path_https() {
    assert_eq!(
        parse_git_uri("https://gitlab.com/group/subgroup/repo.git"),
        Some("repo".to_string())
    );
}

#[test]
fn parse_git_uri_nested_path_ssh() {
    assert_eq!(
        parse_git_uri("git@gitlab.com:group/subgroup/repo.git"),
        Some("repo".to_string())
    );
}

#[test]
fn parse_git_uri_trailing_slash_https() {
    assert_eq!(
        parse_git_uri("https://github.com/user/repo/"),
        Some("user-repo".to_string())
    );
}

#[test]
fn parse_git_uri_trailing_slash_with_git() {
    assert_eq!(
        parse_git_uri("https://github.com/user/repo.git/"),
        Some("user-repo".to_string())
    );
}

#[test]
fn parse_git_uri_invalid_no_protocol() {
    assert_eq!(parse_git_uri("github.com/user/repo"), None);
}

#[test]
fn parse_git_uri_invalid_empty() {
    assert_eq!(parse_git_uri(""), None);
}

#[test]
fn parse_git_uri_invalid_https_no_path() {
    assert_eq!(parse_git_uri("https://github.com/"), None);
}

#[test]
fn parse_git_uri_invalid_ssh_no_path() {
    assert_eq!(parse_git_uri("git@github.com:"), None);
}

#[test]
fn parse_git_uri_complex_nested() {
    assert_eq!(
        parse_git_uri("https://gitlab.com/a/b/c/d/repo.git"),
        Some("repo".to_string())
    );
}

#[test]
fn parse_git_uri_ssh_custom_user() {
    assert_eq!(
        parse_git_uri("custom@gitlab.com:user/repo.git"),
        Some("repo".to_string())
    );
}

#[test]
fn parse_git_uri_just_git_suffix() {
    assert_eq!(parse_git_uri("https://github.com/.git"), None);
}

#[test]
fn parse_git_uri_gitlab_https_user_repo() {
    assert_eq!(
        parse_git_uri("https://gitlab.com/user/repo.git"),
        Some("user-repo".to_string())
    );
}

#[test]
fn parse_git_uri_gitlab_ssh_user_repo() {
    assert_eq!(
        parse_git_uri("git@gitlab.com:user/repo.git"),
        Some("user-repo".to_string())
    );
}

#[test]
fn parse_git_uri_other_hosts_use_repo_name() {
    assert_eq!(
        parse_git_uri("https://example.org/team/tool.git"),
        Some("tool".to_string())
    );
    assert_eq!(parse_git_uri("host:path/repo"), None);
}

#[test]
fn is_url_recognizes_dot_git_suffix() {
    assert!(is_url("user/repo.git"));
}

#[test]
fn is_url_recognizes_forms() {
    assert!(is_url("https://x/y"));
    assert!(is_url("git@host:a/b"));
    assert!(is_url("host:path"));
    assert!(!is_url("/abs:path"));
    assert!(!is_url("plain-name"));
}

#[test]
fn parse_shell_normalizes_names() {
    assert_eq!(parse_shell("BASH"), Some("bash".to_string()));
    assert_eq!(parse_shell("PowerShell"), Some("pwsh".to_string()));
    assert_eq!(parse_shell("tcsh"), None);
}

#[test]
fn pwsh_quote_doubles_quotes() {
    assert_eq!(pwsh_quote("it's"), "'it''s'");
}

#[test]
fn extract_flag_removes_every_occurrence() {
    let mut args = strings(&["--no-colors", "query", "--no-colors"]);
    assert!(extract_flag(&mut args, "--no-colors"));
    assert_eq!(args, strings(&["query"]));
    assert!(!extract_flag(&mut args, "--no-colors"));
    assert_eq!(args, strings(&["query"]));
}

#[test]
fn extract_option_takes_last_value() {
    let mut args = strings(&["--path", "/a", "x", "--path=/b", "y"]);
    assert_eq!(
        extract_option_with_value(&mut args, "--path"),
        Some("/b".to_string())
    );
    assert_eq!(args, strings(&["x", "y"]));
    let mut trailing = strings(&["x", "--path"]);
    assert_eq!(extract_option_with_value(&mut trailing, "--path"), None);
    assert_eq!(trailing, strings(&["x"]));
}

#[test]
fn help_text_names_version() {
    let help = global_help_text();
    assert!(help.starts_with(&format!("try v{} - ephemeral workspace manager", VERSION)));
    assert!(help.contains("Ctrl-G             Graduate (promote try to project)"));
}

#[test]
fn expand_tilde_uses_home() {
    assert_eq!(expand_tilde_path("~", Some("/home/me")), "/home/me");
    assert_eq!(expand_tilde_path("~/tries", Some("/home/me")), "/home/me/tries");
    assert_eq!(expand_tilde_path("~/tries", None), "~/tries");
    assert_eq!(expand_tilde_path("/abs", Some("/home/me")), "/abs");
    assert_eq!(expand_tilde_path("~other", Some("/home/me")), "~other");
}

#[test]
fn routes_follow_first_argument() {
    assert_eq!(route_of(None), Route::Bare);
    assert_eq!(route_of(Some("init")), Route::Init);
    assert_eq!(route_of(Some("install")), Route::Install);
    assert_eq!(route_of(Some("exec")), Route::Exec);
    assert_eq!(route_of(Some("clone")), Route::Clone);
    assert_eq!(route_of(Some("worktree")), Route::Worktree);
    assert_eq!(route_of(Some(".")), Route::Dot);
    assert_eq!(route_of(Some("./repo")), Route::DotPath);
    assert_eq!(route_of(Some("query")), Route::Query);
}

#[test]
fn exec_actions_follow_arguments() {
    assert_eq!(exec_action_of(&strings(&[])), ExecAction::Selector);
    assert_eq!(exec_action_of(&strings(&[".", "name"])), ExecAction::Worktree(1));
    assert_eq!(exec_action_of(&strings(&["clone", "u"])), ExecAction::Clone(1));
    assert_eq!(exec_action_of(&strings(&["cd", "git@h:a/b"])), ExecAction::Clone(1));
    assert_eq!(exec_action_of(&strings(&["cd", "/tmp/x"])), ExecAction::Cd(1));
    assert_eq!(exec_action_of(&strings(&["cd"])), ExecAction::Selector);
    assert_eq!(exec_action_of(&strings(&["https://x/y.git"])), ExecAction::Clone(0));
    assert!(exec_routes_to_selector(&strings(&["foo"])));
    assert!(!exec_routes_to_selector(&strings(&["clone", "u"])));
    assert!(!exec_routes_to_selector(&strings(&["git@h:a/b"])));
}

#[test]
fn worktree_base_joins_words_with_dashes() {
    assert_eq!(worktree_base_name(&strings(&["my", "big\tidea"])), "my-big-idea");
}

#[test]
fn init_path_arg_skips_shell_name() {
    assert_eq!(init_path_arg(&strings(&["zsh", "~/t"])), Some("~/t".to_string()));
    assert_eq!(init_path_arg(&strings(&["~/t"])), Some("~/t".to_string()));
    assert_eq!(init_path_arg(&strings(&["fish"])), None);
}

#[test]
fn install_block_has_marker() {
    let block = install_block("snippet\n");
    assert_eq!(block, "\n# try shell integration\nsnippet\n");
    assert!(is_installed(&block));
    assert!(!is_installed("export PATH=x"));
}

#[test]
fn selection_commands_follow_result() {
    assert_eq!(
        selection_commands(&SelectionResult::Cd("/t/a".to_string()), None, None),
        Some(vec![script_cd("/t/a")])
    );
    assert_eq!(
        selection_commands(&SelectionResult::Mkdir("/t/b".to_string()), None, None),
        Some(vec![script_mkdir_cd("/t/b")])
    );
    assert_eq!(
        selection_commands(
            &SelectionResult::Rename("/t/a".to_string(), "/t/c".to_string()),
            None,
            None
        ),
        Some(vec![script_rename("/t/a", "/t/c")])
    );
    assert_eq!(selection_commands(&SelectionResult::Cancelled, None, None), None);
}

#[test]
fn clone_script_rejects_unparsable_url() {
    assert_eq!(
        clone_script("/nonexistent-tries-dir", "not a url", None),
        Err(CloneError::UnparsableUri)
    );
    let ok = clone_script("/nonexistent-tries-dir", "https://github.com/u/r.git", None).unwrap();
    assert!(ok.starts_with("git clone 'https://github.com/u/r.git' '/nonexistent-tries-dir/20"));
    assert!(ok.contains("-u-r' && \\\n  cd '"));
}

#[test]
fn clone_script_uses_a_custom_name_as_given() {
    assert_eq!(
        clone_script("/nonexistent-tries-dir", "https://github.com/tobi/try.git", Some("my-fork")),
        Ok("git clone 'https://github.com/tobi/try.git' '/nonexistent-tries-dir/my-fork' && \\\n  cd '/nonexistent-tries-dir/my-fork'".to_string())
    );
    assert_eq!(
        clone_script("/nonexistent-tries-dir", "not a url", Some("mine")),
        Ok("git clone 'not a url' '/nonexistent-tries-dir/mine' && \\\n  cd '/nonexistent-tries-dir/mine'".to_string())
    );
}

#[test]
fn clone_script_with_dates_the_repository_name() {
    let existing = vec!["2025-01-02-tobi-try".to_string()];
    assert_eq!(
        try_rs::cli::clone_script_with(
            "/tries",
            "https://github.com/tobi/try.git",
            "tobi-try",
            "2025-01-02",
            |c: &String| existing.contains(c)
        ),
        Ok("git clone 'https://github.com/tobi/try.git' '/tries/2025-01-02-tobi-try-2' && \\\n  cd '/tries/2025-01-02-tobi-try-2'".to_string())
    );
    assert_eq!(
        try_rs::cli::new_try_target_with("/tries", "api", "2025-01-02", |c: &String| existing.contains(c)),
        Some("/tries/2025-01-02-api".to_string())
    );
}
