use sit::app::{run, Cli, Commands, Flow};
use sit::cmd::flow::{Reply, Request, Work};
use sit::config::Config;
use sit::git::common::GitOutput;
use sit::git::types::FileStatus;
use sit::hooks::HookRun;
use sit::picker::{picker_start, PickOutcome};
use sit::print::Line;
use sit::ui::confirms::confirm_answer;
use sit::ui::keys::Key;
use sit::ui::selectors::{select_branch, selector_start, SelectOutcome};

fn git(success: bool, stdout: &str, stderr: &str) -> Reply {
    Reply::Git(GitOutput { success, stdout: stdout.to_string(), stderr: stderr.to_string() })
}

fn start(command: Option<Commands>, env: &[&str]) -> (Flow, Request) {
    let cli = Cli { command, env: env.iter().map(|s| s.to_string()).collect() };
    run(cli, Config::default())
}

fn step(flow: &mut Flow, reply: Reply) -> Request {
    assert!(flow.accepts(&reply), "reply not accepted here");
    flow.step(reply)
}

fn git_args(req: &Request) -> Vec<String> {
    match &req.work {
        Work::Git(args) => args.clone(),
        _ => panic!("expected a git command"),
    }
}

fn finished(req: &Request) -> Option<Result<(), String>> {
    match &req.work {
        Work::Finish(r) => Some(r.clone()),
        _ => None,
    }
}

fn has_hint(req: &Request, text: &str) -> bool {
    req.print.iter().any(|l| matches!(l, Line::Hint(h) if h == text))
}

fn key_char(c: char) -> Key {
    Key::Char { c, ctrl: false }
}

fn answer(req: &Request, key: Key) -> Reply {
    match &req.work {
        Work::Confirm(c) => Reply::Answer(confirm_answer(c.style, &key)),
        _ => panic!("expected a question"),
    }
}

#[test]
fn interactive_branch_cancel_with_escape() {
    let (mut flow, req) = start(Some(Commands::Branch), &[]);
    assert_eq!(git_args(&req), vec!["branch", "--format=%(refname:short)"]);
    let req = step(&mut flow, git(true, "main\n", ""));
    assert_eq!(git_args(&req), vec!["rev-parse", "--abbrev-ref", "HEAD"]);
    let req = step(&mut flow, git(true, "main\n", ""));
    let branches = match req.work {
        Work::SelectBranch(b) => b,
        _ => panic!("expected the branch selector"),
    };
    let mut state = selector_start();
    let out = select_branch(&branches, &mut state, &Key::Esc);
    assert!(matches!(out, SelectOutcome::Cancelled));
    let req = step(&mut flow, Reply::Failed("Cancelled".to_string()));
    let output = finished(&req).expect("over").expect_err("non-zero exit");
    assert!(output.to_lowercase().contains("cancel"), "expected cancel output, got:\n{output}");
}

#[test]
fn interactive_amend_keep_message_confirm_yes_decline_push() {
    let (mut flow, req) = start(Some(Commands::Amend), &[]);
    assert_eq!(git_args(&req), vec!["log", "-1", "--format=%B"]);
    let req = step(&mut flow, git(true, "initial\n", ""));
    assert_eq!(git_args(&req)[0], "diff-tree");
    let req = step(&mut flow, git(true, "README.md\n", ""));
    assert_eq!(git_args(&req), vec!["status", "--porcelain"]);
    let req = step(&mut flow, git(true, "", ""));
    match &req.work {
        Work::PromptAmend(m) => assert_eq!(m, "initial"),
        _ => panic!("expected the amend prompt"),
    }
    // Enter keeps the message.
    let req = step(&mut flow, Reply::Text("initial".to_string()));
    let reply = answer(&req, key_char('y'));
    let req = step(&mut flow, reply);
    assert_eq!(git_args(&req), vec!["commit", "--amend", "-m", "initial"]);
    let req = step(&mut flow, git(true, "", ""));
    assert!(req.print.iter().any(|l| matches!(l, Line::Success(s) if s == "Amended")));
    let req = step(&mut flow, git(false, "", "fatal: no upstream configured"));
    assert_eq!(git_args(&req), vec!["remote"]);
    let req = step(&mut flow, git(true, "", ""));
    assert!(has_hint(&req, "No remote configured; skipping push"));
    assert_eq!(finished(&req), Some(Ok(())), "output:\n{}", "exit code 0");
}

#[test]
fn interactive_undo_confirm_yes() {
    let (mut flow, _) = start(Some(Commands::Undo), &[]);
    let req = step(&mut flow, git(true, "second\n", ""));
    let req = step(&mut flow, git(true, "b.txt\n", ""));
    assert!(req.print.iter().any(|l| matches!(l, Line::Emphasis(s) if s == "second")));
    let reply = answer(&req, key_char('y'));
    let req = step(&mut flow, reply);
    assert_eq!(git_args(&req), vec!["reset", "--soft", "HEAD~1"]);
    let req = step(&mut flow, git(true, "", ""));
    assert_eq!(finished(&req), Some(Ok(())));
}

#[test]
fn interactive_release_creates_and_pushes_tag() {
    let (mut flow, req) = start(Some(Commands::Release), &[]);
    assert_eq!(git_args(&req), vec!["tag", "--list", "--sort=-v:refname"]);
    let req = step(&mut flow, git(true, "", ""));
    assert!(has_hint(&req, "Previous release tag: none"));
    let req = step(&mut flow, Reply::Text("0.1.1\n".to_string()));
    assert_eq!(git_args(&req), vec!["tag", "v0.1.1"]);
    let req = step(&mut flow, git(true, "", ""));
    let req = step(&mut flow, git(true, "origin/main\n", ""));
    assert_eq!(git_args(&req), vec!["push", "origin", "v0.1.1"]);
    let req = step(&mut flow, git(true, "", ""));
    assert_eq!(finished(&req), Some(Ok(())));
    assert!(req.print.iter().any(|l| matches!(l, Line::Detail(s) if s == "tag v0.1.1 pushed")));
}

#[test]
fn interactive_category_shortcut_commit_flow_creates_commit() {
    let args = vec!["feat".to_string(), "ship".to_string()];
    let (mut flow, req) = start(Some(Commands::CategoryShortcut(args)), &[]);
    assert_eq!(git_args(&req), vec!["status", "--porcelain"]);
    let req = step(&mut flow, git(true, " M README.md\n", ""));
    let changes = match req.work {
        Work::Pick(c) => c,
        _ => panic!("expected the picker"),
    };
    let mut picker = picker_start(changes);
    let files = match picker.step(&Key::Enter) {
        PickOutcome::Confirmed(f) => f,
        _ => panic!("expected a confirmed selection"),
    };
    assert_eq!(files, vec!["README.md"]);
    let req = step(&mut flow, Reply::Picked(files));
    assert!(matches!(req.work, Work::PromptDescription));
    let req = step(&mut flow, Reply::Text(String::new()));
    let reply = answer(&req, key_char('y'));
    let req = step(&mut flow, reply);
    match &req.work {
        Work::Hook { name, pre, env } => {
            assert_eq!(name, "pre-commit");
            assert!(*pre);
            assert!(env.contains(&("SIT_FILES".to_string(), "README.md".to_string())));
        },
        _ => panic!("expected the pre-commit hook"),
    }
    let req = step(&mut flow, Reply::Hook(None));
    assert_eq!(git_args(&req), vec!["diff", "--name-only", "--cached"]);
    let req = step(&mut flow, git(true, "", ""));
    assert_eq!(git_args(&req), vec!["add", "--", "README.md"]);
    let req = step(&mut flow, git(true, "", ""));
    let args = git_args(&req);
    let subject = args[2].clone();
    assert!(subject.contains("feat") && subject.contains("ship"), "unexpected subject: {subject}");
    assert_eq!(subject, "feat: ship");
    let req = step(&mut flow, git(true, "", ""));
    let req = step(&mut flow, Reply::Hook(None));
    let reply = answer(&req, key_char('n'));
    let req = step(&mut flow, reply);
    assert_eq!(finished(&req), Some(Ok(())));
}

#[test]
fn cli_commit_exits_cleanly_when_repo_has_no_changes() {
    let (mut flow, _) = start(Some(Commands::Commit), &[]);
    let req = step(&mut flow, git(true, "", ""));
    assert!(has_hint(&req, "No changes to commit"));
    assert_eq!(finished(&req), Some(Ok(())));
}

#[test]
fn cli_default_command_exits_cleanly_when_repo_has_no_changes() {
    let (mut flow, req) = start(None, &[]);
    assert_eq!(git_args(&req), vec!["status", "--porcelain"]);
    let req = step(&mut flow, git(true, "", ""));
    assert_eq!(finished(&req), Some(Ok(())));
}

#[test]
fn cli_category_shortcut_known_category_exits_cleanly_when_no_changes() {
    let args = vec!["feat".to_string(), "ship".to_string(), "it".to_string()];
    let (mut flow, req) = start(Some(Commands::CategoryShortcut(args)), &[]);
    assert!(matches!(flow, Flow::Commit(_)));
    assert_eq!(git_args(&req), vec!["status", "--porcelain"]);
    let req = step(&mut flow, git(true, "", ""));
    assert_eq!(finished(&req), Some(Ok(())));
}

#[test]
fn cli_external_shortcut_unknown_command_fails_cleanly() {
    let args = vec!["definitely-not-a-command-xyz".to_string()];
    let (mut flow, req) = start(Some(Commands::CategoryShortcut(args)), &[]);
    assert_eq!(git_args(&req), vec!["definitely-not-a-command-xyz"]);
    let req = step(
        &mut flow,
        git(false, "", "git: 'definitely-not-a-command-xyz' is not a git command. See 'git --help'.\n"),
    );
    assert_eq!(
        finished(&req),
        Some(Err("Command or category not found: definitely-not-a-command-xyz".to_string()))
    );
    assert!(req.print.is_empty());
}

#[test]
fn cli_push_fails_outside_git_repo() {
    let (mut flow, _) = start(Some(Commands::Push), &[]);
    let req = step(&mut flow, Reply::Hook(None));
    assert_eq!(git_args(&req), vec!["rev-parse", "--abbrev-ref", "HEAD"]);
    let req = step(&mut flow, git(false, "", "fatal: not a git repository"));
    assert_eq!(finished(&req), Some(Err("Not a git repository or no commits yet".to_string())));
}

#[test]
fn cli_log_fails_outside_git_repo() {
    let (mut flow, req) = start(Some(Commands::Log), &[]);
    assert_eq!(git_args(&req)[0], "log");
    let req = step(&mut flow, git(false, "", " fatal: not a git repository \n"));
    assert_eq!(finished(&req), Some(Err("Git log failed: fatal: not a git repository".to_string())));
}

#[test]
fn cli_connect_fails_outside_git_repo() {
    let cmd = Commands::Connect { username: "someone".to_string(), repo: "repo".to_string() };
    let (mut flow, req) = start(Some(cmd), &[]);
    assert_eq!(git_args(&req), vec!["remote", "add", "origin", "https://github.com/someone/repo.git"]);
    assert!(req.print.iter().any(|l| matches!(l, Line::Header(h) if h == "Connecting to github.com/someone/repo")));
    let req = step(&mut flow, git(false, "", "fatal: not a git repository"));
    assert_eq!(finished(&req), Some(Err("Failed to add remote: fatal: not a git repository".to_string())));
}

#[test]
fn cli_categories_runs_without_git_repo() {
    let (flow, req) = start(Some(Commands::Categories), &[]);
    assert!(matches!(flow, Flow::Over));
    assert_eq!(finished(&req), Some(Ok(())));
    assert!(req.print.iter().any(|l| matches!(l, Line::Entry(n, d) if n == "feat      " && d == "Add a new feature")));
}

#[test]
fn cli_init_creates_config_and_hooks() {
    let (mut flow, req) = start(Some(Commands::Init), &[]);
    assert!(matches!(req.work, Work::InitConfig));
    let req = step(&mut flow, Reply::Answer(false));
    assert_eq!(finished(&req), Some(Ok(())));
    assert!(req.print.iter().any(|l| matches!(l, Line::Success(s) if s == "Created .sit/config.toml and hook templates")));
}

fn push_to_hook(env: &[&str]) -> (Flow, Request) {
    start(Some(Commands::Push), env)
}

fn push_through(flow: &mut Flow) -> Request {
    let req = step(flow, git(true, "main\n", ""));
    assert_eq!(git_args(&req), vec!["rev-parse", "--abbrev-ref", "--symbolic-full-name", "@{u}"]);
    let req = step(flow, git(true, "origin/main\n", ""));
    assert_eq!(git_args(&req), vec!["push"]);
    step(flow, git(true, "", ""))
}

#[test]
fn push_succeeds_with_existing_upstream() {
    let (mut flow, req) = push_to_hook(&[]);
    assert!(matches!(&req.print[0], Line::Blank));
    let _ = step(&mut flow, Reply::Hook(None));
    let req = push_through(&mut flow);
    assert!(req.print.iter().any(|l| matches!(l, Line::Detail(d) if d == "→ origin/main")));
    let req = step(&mut flow, Reply::Hook(None));
    assert_eq!(finished(&req), Some(Ok(())));
}

fn failed_hook() -> Reply {
    Reply::Hook(Some(HookRun { success: false, code: Some(1), stdout: String::new(), stderr: String::new() }))
}

#[test]
fn push_is_blocked_by_pre_push_hook_failure() {
    let (mut flow, _) = push_to_hook(&[]);
    let req = step(&mut flow, failed_hook());
    assert_eq!(finished(&req), Some(Err("Hook 'pre-push' exited with status 1 — aborting".to_string())));
}

#[test]
fn push_succeeds_even_if_post_push_hook_fails() {
    let (mut flow, _) = push_to_hook(&[]);
    let _ = step(&mut flow, Reply::Hook(None));
    let _ = push_through(&mut flow);
    let req = step(&mut flow, failed_hook());
    assert_eq!(finished(&req), Some(Ok(())));
    assert!(has_hint(&req, "Warning: hook 'post-push' exited with status 1"));
}

#[test]
fn push_hook_receives_cli_env_and_last_value_wins() {
    let (mut flow, req) = push_to_hook(&["TEAM=alpha", "TEAM=platform"]);
    match &req.work {
        Work::Hook { name, pre, env } => {
            assert_eq!(name, "pre-push");
            assert!(*pre);
            let team: Vec<&(String, String)> = env.iter().filter(|(k, _)| k == "TEAM").collect();
            assert_eq!(team.len(), 1);
            assert_eq!(team[0].1, "platform");
        },
        _ => panic!("expected the pre-push hook"),
    }
    let ok = Reply::Hook(Some(HookRun { success: true, code: Some(0), stdout: String::new(), stderr: String::new() }));
    let _ = step(&mut flow, ok);
    let _ = push_through(&mut flow);
    let req = step(&mut flow, Reply::Hook(None));
    assert_eq!(finished(&req), Some(Ok(())));
}

#[test]
fn reserved_env_keys_are_not_overridden() {
    let (flow, req) = push_to_hook(&["SIT_FORCE=1", "A=b"]);
    assert!(matches!(flow, Flow::Push(_)));
    match &req.work {
        Work::Hook { env, .. } => {
            assert!(!env.iter().any(|(k, _)| k == "SIT_FORCE"));
            assert!(env.contains(&("A".to_string(), "b".to_string())));
        },
        _ => panic!("expected the pre-push hook"),
    }
}

#[test]
fn malformed_env_value_ends_the_command() {
    let (flow, req) = start(Some(Commands::Push), &["broken"]);
    assert!(matches!(flow, Flow::Over));
    assert_eq!(finished(&req), Some(Err("Expected KEY=VALUE".to_string())));
}

#[test]
fn new_branch_is_created_after_confirmation() {
    let (mut flow, _) = start(Some(Commands::Branch), &[]);
    let _ = step(&mut flow, git(true, "main\n", ""));
    let _ = step(&mut flow, git(true, "main\n", ""));
    let req = step(&mut flow, Reply::Text("topic".to_string()));
    let reply = answer(&req, key_char('y'));
    let req = step(&mut flow, reply);
    assert_eq!(git_args(&req), vec!["switch", "-c", "topic"]);
    let req = step(&mut flow, git(true, "", ""));
    assert!(req.print.iter().any(|l| matches!(l, Line::Success(s) if s == "Created and switched")));
    assert!(req.print.iter().any(|l| matches!(l, Line::Detail(d) if d == "→ topic")));
}

#[test]
fn blank_message_ends_the_commit_with_an_error() {
    let (mut flow, _) = start(Some(Commands::Commit), &[]);
    let req = step(&mut flow, git(true, "?? new.txt\n", ""));
    let changes = match req.work {
        Work::Pick(c) => c,
        _ => panic!("expected the picker"),
    };
    assert_eq!(changes[0].status, FileStatus::Untracked);
    let req = step(&mut flow, Reply::Picked(vec!["new.txt".to_string()]));
    assert!(matches!(req.work, Work::SelectCategory(_)));
    let req = step(&mut flow, Reply::Chosen(Some(1)));
    match &req.work {
        Work::PromptMessage(c) => assert_eq!(c, "fix"),
        _ => panic!("expected the message prompt"),
    }
    let req = step(&mut flow, Reply::Text("   ".to_string()));
    assert_eq!(finished(&req), Some(Err("Commit message cannot be empty".to_string())));
}
