use sit::app::{run, Cli, Commands, Flow};
use sit::cmd::flow::{Reply, Request, Work};
use sit::cmd::push::PushFlow;
use sit::config::{Config, RawCategory, RawConfig};
use sit::git::common::GitOutput;
use sit::git::staging::unstage_outcome;
use sit::print::Line;
use sit::ui::editor::{editor_start, EditorInput};
use sit::ui::keys::Key;

fn git(success: bool, stdout: &str, stderr: &str) -> Reply {
    Reply::Git(GitOutput { success, stdout: stdout.to_string(), stderr: stderr.to_string() })
}

fn step(flow: &mut Flow, reply: Reply) -> Request {
    assert!(flow.accepts(&reply));
    flow.step(reply)
}

fn finished(req: &Request) -> Option<Result<(), String>> {
    match &req.work {
        Work::Finish(r) => Some(r.clone()),
        _ => None,
    }
}

fn commit_up_to_preview(flow: &mut Flow) -> Request {
    let _ = step(flow, git(true, " M a.rs\n", ""));
    let _ = step(flow, Reply::Picked(vec!["a.rs".to_string()]));
    let _ = step(flow, Reply::Chosen(Some(0)));
    let _ = step(flow, Reply::Text("add it".to_string()));
    step(flow, Reply::Text(String::new()))
}

#[test]
fn declined_preview_commits_nothing() {
    let (mut flow, _) = run(Cli { command: Some(Commands::Commit), env: vec![] }, Config::default());
    let req = commit_up_to_preview(&mut flow);
    match &req.work {
        Work::Confirm(c) => assert!(c.text.contains("feat: add it")),
        _ => panic!("expected the preview"),
    }
    let req = step(&mut flow, Reply::Answer(false));
    assert_eq!(finished(&req), Some(Ok(())));
    assert!(req.print.iter().any(|l| matches!(l, Line::Hint(h) if h == "Aborted")));
}

#[test]
fn failed_push_after_asking_is_shown_not_returned() {
    let (mut flow, _) = run(Cli { command: Some(Commands::Commit), env: vec![] }, Config::default());
    let _ = commit_up_to_preview(&mut flow);
    let _ = step(&mut flow, Reply::Answer(true));
    let _ = step(&mut flow, Reply::Hook(None));
    let _ = step(&mut flow, git(true, "", ""));
    let _ = step(&mut flow, git(true, "", ""));
    let req = step(&mut flow, git(true, "", ""));
    assert!(req.print.iter().any(|l| matches!(l, Line::Success(s) if s == "Committed")));
    let _ = step(&mut flow, Reply::Hook(None));
    let req = step(&mut flow, Reply::Answer(true));
    assert!(matches!(&req.work, Work::Hook { name, .. } if name == "pre-push"));
    let _ = step(&mut flow, Reply::Hook(None));
    let _ = step(&mut flow, git(true, "main\n", ""));
    let _ = step(&mut flow, git(false, "", ""));
    let req = step(&mut flow, git(false, "", "rejected\n"));
    assert_eq!(finished(&req), Some(Ok(())));
    assert!(req.print.iter().any(|l| matches!(l, Line::Error(e) if e == "Push failed: rejected")));
}

#[test]
fn declined_amend_unstages_the_added_files() {
    let (mut flow, _) = run(Cli { command: Some(Commands::Amend), env: vec![] }, Config::default());
    let _ = step(&mut flow, git(true, "msg\n", ""));
    let _ = step(&mut flow, git(true, "a.rs\n", ""));
    let req = step(&mut flow, git(true, "?? b.rs\n M a.rs\n", ""));
    assert!(matches!(req.work, Work::Pick(_)));
    let _ = step(&mut flow, Reply::Picked(vec!["b.rs".to_string(), "a.rs".to_string()]));
    let _ = step(&mut flow, git(true, "", ""));
    let req = step(&mut flow, git(true, "", ""));
    assert!(matches!(&req.work, Work::PromptAmend(m) if m == "msg"));
    let req = step(&mut flow, Reply::Text("msg".to_string()));
    match &req.work {
        Work::Confirm(c) => {
            assert_eq!(c.lines, 9);
            assert!(c.text.contains("a.rs\r\n"));
            assert!(c.text.contains("b.rs\r\n"));
        },
        _ => panic!("expected the preview"),
    }
    let req = step(&mut flow, Reply::Answer(false));
    match &req.work {
        Work::Git(args) => assert_eq!(args, &vec!["restore", "--staged", "--", "b.rs", "a.rs"]),
        _ => panic!("expected unstaging"),
    }
    let req = step(&mut flow, Reply::Failed("git missing".to_string()));
    assert_eq!(finished(&req), Some(Ok(())));
}

#[test]
fn typing_then_erasing_restores_the_text() {
    let mut e = editor_start();
    let _ = e.input(EditorInput::Key(Key::Char { c: 'a', ctrl: false }));
    let _ = e.input(EditorInput::Key(Key::Char { c: 'b', ctrl: false }));
    let _ = e.input(EditorInput::Key(Key::Left));
    let before = (e.buffer.clone(), e.cursor);
    let _ = e.input(EditorInput::Key(Key::Char { c: 'x', ctrl: false }));
    assert_eq!(e.buffer, vec!['a', 'x', 'b']);
    let _ = e.input(EditorInput::Key(Key::Backspace));
    assert_eq!((e.buffer.clone(), e.cursor), before);
}

#[test]
fn a_categories_table_replaces_the_defaults() {
    let local = RawConfig {
        commit: None,
        categories: Some(vec![("ship".to_string(), RawCategory::Shorthand("Ship it".to_string()))]),
        modules: None,
    };
    let (cfg, _) = Config::load(None, Some(local));
    assert_eq!(cfg.categories.len(), 1);
    assert_eq!(cfg.categories[0].name, "ship");
    assert_eq!(cfg.categories[0].description, "Ship it");
    assert!(!cfg.commit.attach_emoji);
}

#[test]
fn unstaging_outcome_keeps_the_error_output() {
    let ok = GitOutput { success: true, stdout: String::new(), stderr: String::new() };
    assert!(unstage_outcome(&ok).is_ok());
    let bad = GitOutput { success: false, stdout: String::new(), stderr: "no\n".to_string() };
    assert_eq!(unstage_outcome(&bad).unwrap_err(), "Failed to unstage: no\n");
}

fn git_reply(success: bool, stdout: &str, stderr: &str) -> Reply {
    Reply::Git(GitOutput { success, stdout: stdout.to_string(), stderr: stderr.to_string() })
}

fn request_args(req: &Request) -> Vec<String> {
    match &req.work {
        Work::Git(args) => args.clone(),
        _ => panic!("expected a git command"),
    }
}

fn push_after_hook(force: bool) -> PushFlow {
    let (mut flow, _) = PushFlow::start(force, &[]);
    let req = flow.step(Reply::Hook(None));
    assert_eq!(request_args(&req), vec!["rev-parse", "--abbrev-ref", "HEAD"]);
    flow
}

#[test]
fn push_without_upstream_sets_origin_upstream() {
    let mut flow = push_after_hook(false);
    let _ = flow.step(git_reply(true, "feature\n", ""));
    let req = flow.step(git_reply(false, "", "no upstream"));
    assert_eq!(request_args(&req), vec!["push", "--set-upstream", "origin", "feature"]);
    assert_eq!(flow.remote, "origin");
    assert!(flow.set_upstream);
    assert_eq!(flow.branch, "feature");
    let req = flow.step(git_reply(false, "", " rejected "));
    assert!(matches!(req.work, Work::Finish(Err(ref e)) if e == "Push failed: rejected"));
}

#[test]
fn push_with_upstream_uses_its_remote() {
    let mut flow = push_after_hook(false);
    let _ = flow.step(git_reply(true, "main\n", ""));
    let req = flow.step(git_reply(true, "fork/main\n", ""));
    assert_eq!(request_args(&req), vec!["push"]);
    assert_eq!(flow.remote, "fork");
    assert!(!flow.set_upstream);
}

#[test]
fn push_without_current_branch_pushes_nothing() {
    let mut flow = push_after_hook(false);
    let req = flow.step(git_reply(false, "", "not a repo"));
    assert!(matches!(req.work, Work::Finish(Err(_))));
}

#[test]
fn force_push_targets_current_branch_with_lease() {
    let mut flow = push_after_hook(true);
    let _ = flow.step(git_reply(true, "feature\n", ""));
    let req = flow.step(git_reply(false, "", ""));
    assert_eq!(request_args(&req), vec!["push", "--force-with-lease", "--set-upstream", "origin", "feature"]);
    let req = flow.step(git_reply(false, "", "stale info"));
    assert!(matches!(req.work, Work::Finish(Err(ref e)) if e == "Force push failed: stale info"));

    let mut flow = push_after_hook(true);
    let _ = flow.step(git_reply(true, "main\n", ""));
    let req = flow.step(git_reply(true, "origin/main\n", ""));
    assert_eq!(request_args(&req), vec!["push", "--force-with-lease"]);
}

#[test]
fn confirmed_commit_uses_the_formatted_message() {
    let cli = Cli { command: Some(Commands::CategoryShortcut(vec!["fix".to_string(), "the".to_string(), "bug".to_string()])), env: vec![] };
    let (mut flow, _) = run(cli, Config::default());
    let req = flow.step(git_reply(true, " M src/a.rs\n", ""));
    assert!(matches!(req.work, Work::Pick(_)));
    let req = flow.step(Reply::Picked(vec!["src/a.rs".to_string()]));
    assert!(matches!(req.work, Work::PromptDescription));
    let req = flow.step(Reply::Text("explains why".to_string()));
    assert!(matches!(req.work, Work::Confirm(_)));
    let req = flow.step(Reply::Answer(true));
    assert!(matches!(&req.work, Work::Hook { name, pre: true, .. } if name == "pre-commit"));
    let req = flow.step(Reply::Hook(None));
    assert_eq!(request_args(&req), vec!["diff", "--name-only", "--cached"]);
    let req = flow.step(git_reply(true, "", ""));
    assert_eq!(request_args(&req), vec!["add", "--", "src/a.rs"]);
    let req = flow.step(git_reply(true, "", ""));
    let expected = Config::default().format_commit("fix", None, "the bug", "explains why");
    assert_eq!(request_args(&req), vec!["commit".to_string(), "-m".to_string(), expected.clone()]);
    assert_eq!(expected, "fix: the bug\n\nexplains why");
}
