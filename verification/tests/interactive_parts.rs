use sit::categories::Category;
use sit::config::Module;
use sit::git::types::{Branch, FileChange, FileStatus};
use sit::picker::{picker_start, PickOutcome};
use sit::ui::confirms::{confirm_answer, confirm_commit, confirm_create_branch, confirm_push, confirm_undo, ConfirmStyle};
use sit::ui::editor::{clean_paste_exec, description_prompt, editor_start, EditorInput, EditorOutcome};
use sit::ui::keys::Key;
use sit::ui::prompts::{print_error, print_success, prompt_message, prompt_prefix, prompt_release_tag, release_placeholder};
use sit::ui::selectors::{
    branch_can_create, branch_choice_text, category_choice_text, filtered_branch_indices, filtered_indices,
    module_choice_text, module_selector_start, render_branches, render_categories, render_modules, select_branch,
    select_category, select_module, selector_start, SelectOutcome,
};
use sit::print::Line;

const RESET: &str = "\x1b[0m";
const BOLD: &str = "\x1b[1m";
const DIM: &str = "\x1b[2m";
const CYAN: &str = "\x1b[36m";
const BG: &str = "\x1b[48;5;236m";

fn ch(c: char) -> Key {
    Key::Char { c, ctrl: false }
}

fn cat(name: &str, desc: &str) -> Category {
    Category { name: name.to_string(), description: desc.to_string(), emoji: String::new() }
}

fn categories() -> Vec<Category> {
    vec![cat("feat", "Add a new feature"), cat("fix", "Fix a bug"), cat("docs", "Documentation changes")]
}

fn branch(name: &str, current: bool) -> Branch {
    Branch { name: name.to_string(), is_current: current }
}

#[test]
fn category_filter_matches_name_or_description_ignoring_case() {
    let cs = categories();
    assert_eq!(filtered_indices(&cs, ""), vec![0, 1, 2]);
    assert_eq!(filtered_indices(&cs, "FI"), vec![1]);
    assert_eq!(filtered_indices(&cs, "bug"), vec![1]);
    assert_eq!(filtered_indices(&cs, "e"), vec![0, 2]);
    assert!(filtered_indices(&cs, "zzz").is_empty());
}

#[test]
fn category_selector_moves_filters_and_chooses() {
    let cs = categories();
    let mut st = selector_start();
    assert!(matches!(select_category(&cs, &mut st, &Key::Down), SelectOutcome::Continue));
    assert_eq!(st.cursor, 1);
    assert!(matches!(select_category(&cs, &mut st, &Key::Down), SelectOutcome::Continue));
    assert!(matches!(select_category(&cs, &mut st, &Key::Down), SelectOutcome::Continue));
    assert_eq!(st.cursor, 2);
    assert!(matches!(select_category(&cs, &mut st, &ch('d')), SelectOutcome::Continue));
    assert_eq!(st.cursor, 0);
    assert!(matches!(select_category(&cs, &mut st, &ch('o')), SelectOutcome::Continue));
    assert!(matches!(select_category(&cs, &mut st, &Key::Enter), SelectOutcome::Chosen(2)));
    assert!(matches!(select_category(&cs, &mut st, &Key::Esc), SelectOutcome::Cancelled));
    assert!(matches!(select_category(&cs, &mut st, &ch('x')), SelectOutcome::Continue));
    assert!(matches!(select_category(&cs, &mut st, &Key::Enter), SelectOutcome::Continue));
    assert!(matches!(select_category(&cs, &mut st, &Key::Backspace), SelectOutcome::Continue));
    assert_eq!(st.filter, vec!['d', 'o']);
}

#[test]
fn module_selector_offers_none_after_the_modules() {
    let ms = vec![
        Module { name: "git".to_string(), description: "Git".to_string(), paths: vec![] },
        Module { name: "ui".to_string(), description: "UI".to_string(), paths: vec![] },
    ];
    let mut st = module_selector_start(&ms, Some("ui"));
    assert_eq!(st.cursor, 1);
    assert!(matches!(select_module(&ms, &mut st, &Key::Down), SelectOutcome::Continue));
    assert_eq!(st.cursor, 2);
    assert!(matches!(select_module(&ms, &mut st, &Key::Down), SelectOutcome::Continue));
    assert_eq!(st.cursor, 2);
    assert!(matches!(select_module(&ms, &mut st, &Key::Enter), SelectOutcome::ChoseNone));
    let st2 = module_selector_start(&ms, Some("nope"));
    assert_eq!(st2.cursor, 0);
}

#[test]
fn branch_selector_offers_to_create_a_new_name() {
    let bs = vec![branch("main", true), branch("topic", false)];
    assert_eq!(filtered_branch_indices(&bs, "TOP"), vec![1]);
    assert!(!branch_can_create(&bs, "main"));
    assert!(!branch_can_create(&bs, "  "));
    assert!(branch_can_create(&bs, "new"));
    let mut st = selector_start();
    for c in " new ".chars() {
        let _ = select_branch(&bs, &mut st, &ch(c));
    }
    match select_branch(&bs, &mut st, &Key::Enter) {
        SelectOutcome::Create(name) => assert_eq!(name, "new"),
        _ => panic!("expected a new branch"),
    }
}

#[test]
fn category_selector_draws_exactly() {
    let cs = vec![cat("feat", "Add"), cat("fix", "Bug")];
    let (text, height) = render_categories(&cs, &[0, 1], 1, "");
    let row0 = format!("   {}  {BOLD}feat{RESET}  {DIM}Add{RESET}\r\n", " ");
    let row1 = format!("  {BG} {CYAN}›{RESET}  {BOLD}fix {RESET}{BG}  {DIM}Bug{RESET}{RESET}\r\n");
    let head = format!("\r\n  {BOLD}  Commit type{RESET} {DIM}(type to filter){RESET}\r\n\r\n");
    let foot = format!(
        "\r\n  {DIM}↑↓{RESET} move  {DIM}type{RESET} filter  {DIM}enter{RESET} select  {DIM}esc{RESET} cancel"
    );
    assert_eq!(text, format!("{head}{row0}{row1}{foot}"));
    assert_eq!(height, 6);
    let (empty, h) = render_categories(&cs, &[], 0, "zz");
    assert!(empty.contains("no matches"));
    assert!(empty.contains(&format!("{DIM}/{RESET}{CYAN}zz{RESET}")));
    assert_eq!(h, 5);
}

#[test]
fn module_and_branch_selectors_draw_their_extra_rows() {
    let ms = vec![Module { name: "ui".to_string(), description: "UI".to_string(), paths: vec![] }];
    let (text, height) = render_modules(&ms, &[0], 1, "");
    assert!(text.contains(&format!("  {BG} {CYAN}›{RESET}  {DIM}none  skip{RESET}{RESET}\r\n")));
    assert_eq!(height, 6);
    let bs = vec![branch("main", true)];
    let (text, height) = render_branches(&bs, &[0], 0, "new", true);
    assert!(text.contains(&format!("{BOLD}main  {RESET}{BG}  {DIM}(current){RESET}{RESET}{RESET}\r\n")));
    assert!(text.contains(&format!("{DIM}create branch:{RESET} {CYAN}new{RESET}\r\n")));
    assert_eq!(height, 6);
    let (text, height) = render_branches(&[], &[], 0, "", false);
    assert!(text.contains("no matches"));
    assert_eq!(height, 5);
}

#[test]
fn choices_leave_a_summary_line() {
    assert_eq!(
        category_choice_text(&cat("feat", "Add")),
        format!("\r\n  {BOLD}  Type{RESET}  {CYAN}feat{RESET} {DIM}Add{RESET}\r\n\r\n")
    );
    assert_eq!(module_choice_text(None), format!("\r\n  {BOLD}  Module{RESET}  {DIM}none{RESET}\r\n\r\n"));
    assert_eq!(
        branch_choice_text("x", true),
        format!("\r\n  {BOLD}  Branch{RESET}  {CYAN}x{RESET} {DIM}(new){RESET}\r\n\r\n")
    );
    assert_eq!(branch_choice_text("x", false), format!("\r\n  {BOLD}  Branch{RESET}  {CYAN}x{RESET}\r\n\r\n"));
}

fn change(path: &str, status: FileStatus) -> FileChange {
    FileChange { path: path.to_string(), status }
}

#[test]
fn picker_sorts_by_status_and_leaves_untracked_unselected() {
    let p = picker_start(vec![
        change("u.txt", FileStatus::Untracked),
        change("a.txt", FileStatus::Added),
        change("m.txt", FileStatus::Modified),
        change("d.txt", FileStatus::Deleted),
        change("m2.txt", FileStatus::Modified),
    ]);
    let paths: Vec<&str> = p.changes.iter().map(|c| c.path.as_str()).collect();
    assert_eq!(paths, vec!["m.txt", "m2.txt", "a.txt", "d.txt", "u.txt"]);
    assert_eq!(p.selected, vec![true, true, true, true, false]);
    assert_eq!(p.cursor, 0);
}

#[test]
fn picker_keys_toggle_select_all_and_confirm() {
    let mut p = picker_start(vec![change("a", FileStatus::Modified), change("b", FileStatus::Untracked)]);
    assert!(matches!(p.step(&ch('a')), PickOutcome::Continue));
    assert_eq!(p.selected, vec![true, true]);
    assert!(matches!(p.step(&ch('a')), PickOutcome::Continue));
    assert_eq!(p.selected, vec![false, false]);
    assert!(matches!(p.step(&ch('j')), PickOutcome::Continue));
    assert!(matches!(p.step(&ch('j')), PickOutcome::Continue));
    assert_eq!(p.cursor, 1);
    assert!(matches!(p.step(&ch(' ')), PickOutcome::Continue));
    assert!(matches!(p.step(&ch(' ')), PickOutcome::Continue));
    assert!(matches!(p.step(&ch(' ')), PickOutcome::Continue));
    assert_eq!(p.selected, vec![false, true]);
    match p.step(&Key::Enter) {
        PickOutcome::Confirmed(paths) => assert_eq!(paths, vec!["b"]),
        _ => panic!("expected confirmation"),
    }
    assert!(matches!(p.step(&ch('q')), PickOutcome::Cancelled));
    assert!(matches!(p.step(&Key::Esc), PickOutcome::Cancelled));
}

#[test]
fn picker_draws_header_rows_and_summary() {
    let p = picker_start(vec![change("a.rs", FileStatus::Modified), change("n.rs", FileStatus::Untracked)]);
    let (text, height) = p.render();
    assert!(text.starts_with(&format!("\r\n  {BOLD}  Changes{RESET} {DIM}(1/2 selected){RESET}\r\n\r\n")));
    assert!(text.contains(&format!(
        "  {BG} › {DIM}├──{RESET}{BG}\x1b[33m◉{RESET} {BG}\x1b[33m~{RESET} {BG}\x1b[33ma.rs{RESET}{RESET}\r\n"
    )));
    assert!(text.contains(&format!(
        "     {DIM}└──{RESET}{DIM}○{RESET} \x1b[90m?{RESET} \x1b[90mn.rs{RESET}\r\n"
    )));
    assert_eq!(height, 6);
    assert_eq!(
        p.summary(),
        format!("\r\n  {BOLD}  Files{RESET} {DIM}(1 selected){RESET}\r\n    {DIM}└── {RESET}\x1b[33m~ a.rs{RESET}\r\n\r\n")
    );
}

#[test]
fn editor_edits_and_ends() {
    let mut e = editor_start();
    for c in "hlo".chars() {
        assert!(matches!(e.input(EditorInput::Key(ch(c))), EditorOutcome::Continue));
    }
    assert!(matches!(e.input(EditorInput::Key(Key::Left)), EditorOutcome::Continue));
    assert!(matches!(e.input(EditorInput::Key(Key::Left)), EditorOutcome::Continue));
    assert!(matches!(e.input(EditorInput::Key(ch('e'))), EditorOutcome::Continue));
    assert!(matches!(e.input(EditorInput::Key(ch('l'))), EditorOutcome::Continue));
    assert!(matches!(e.input(EditorInput::Key(Key::End)), EditorOutcome::Continue));
    assert!(matches!(e.input(EditorInput::Paste("\r\nx\ry".to_string())), EditorOutcome::Continue));
    assert_eq!(e.buffer.iter().collect::<String>(), "hello\nx\ny");
    let (shown, col) = e.render();
    assert_eq!(shown, "hello \x1b[90m↵\x1b[0m x \x1b[90m↵\x1b[0m y");
    assert_eq!(col, 13);
    assert!(matches!(e.input(EditorInput::Key(Key::Home)), EditorOutcome::Continue));
    assert!(matches!(e.input(EditorInput::Key(Key::Delete)), EditorOutcome::Continue));
    assert!(matches!(e.input(EditorInput::Key(Key::Backspace)), EditorOutcome::Continue));
    match e.input(EditorInput::Key(Key::Enter)) {
        EditorOutcome::Done(s) => assert_eq!(s, "ello\nx\ny"),
        _ => panic!("expected the description"),
    }
    match e.input(EditorInput::Key(Key::Esc)) {
        EditorOutcome::Done(s) => assert_eq!(s, ""),
        _ => panic!("expected an empty description"),
    }
    assert!(matches!(e.input(EditorInput::Key(Key::Char { c: 'c', ctrl: true })), EditorOutcome::Cancelled));
    assert_eq!(clean_paste_exec("a\r\nb\rc"), vec!['a', '\n', 'b', '\n', 'c']);
    assert_eq!(description_prompt(), "\x1b[90m    \x1b[0mDescription (optional): ");
}

#[test]
fn questions_read_their_answers() {
    let push = confirm_push();
    assert_eq!(push.text, format!("{BOLD}\r\n  Push now?{RESET} {DIM}[y/N]{RESET}  "));
    assert!(confirm_answer(push.style, &Key::Enter));
    assert!(!confirm_answer(push.style, &ch('x')));
    let undo = confirm_undo();
    assert!(!confirm_answer(undo.style, &Key::Enter));
    assert!(confirm_answer(undo.style, &ch('Y')));
    let create = confirm_create_branch("topic");
    assert!(create.text.contains(&format!("Create branch {CYAN}topic{RESET}?")));
    let preview = confirm_commit("feat: x", "", &["a.rs".to_string(), "b.rs".to_string()]);
    assert_eq!(preview.lines, 9);
    assert_eq!(preview.style, ConfirmStyle::Preview);
    assert!(!confirm_answer(preview.style, &ch('q')));
    assert!(!confirm_answer(preview.style, &Key::Enter));
    assert!(confirm_answer(preview.style, &ch('y')));
    assert!(confirm_answer(preview.style, &ch('Y')));
    assert!(!confirm_answer(preview.style, &Key::Esc));
    assert!(preview.text.contains(&format!("    {CYAN}{BOLD}feat: x{RESET}\r\n")));
    assert!(preview.text.contains(&format!("    {DIM}├──{RESET} a.rs\r\n    {DIM}└──{RESET} b.rs\r\n")));
    let with_emoji = confirm_commit("x", "✨", &[]);
    assert!(with_emoji.text.contains(&format!("    ✨{CYAN}{BOLD}x{RESET}\r\n")));
}

#[test]
fn prompts_validate_what_was_typed() {
    assert_eq!(prompt_prefix("feat"), " feat ");
    assert_eq!(prompt_message("  hi  ").unwrap(), "hi");
    assert_eq!(prompt_message(" ").unwrap_err(), "Commit message cannot be empty");
    assert_eq!(prompt_release_tag(" 1.2.3 ").unwrap(), "v1.2.3");
    assert_eq!(prompt_release_tag("v2.0.0").unwrap(), "v2.0.0");
    assert_eq!(prompt_release_tag("").unwrap_err(), "Release version cannot be empty");
    assert_eq!(release_placeholder(Some(" vv1.0.0 ")).as_deref(), Some("1.0.0"));
    assert_eq!(release_placeholder(Some("v")), None);
    assert_eq!(release_placeholder(None), None);
}

#[test]
fn success_and_error_lines() {
    let lines = print_success("feat: x\n\nbody");
    assert_eq!(lines.len(), 6);
    assert!(matches!(&lines[1], Line::Success(s) if s == "Committed"));
    assert!(matches!(&lines[2], Line::Detail(s) if s == "feat: x"));
    assert!(matches!(&lines[3], Line::Detail(s) if s.is_empty()));
    assert!(matches!(&lines[4], Line::Detail(s) if s == "body"));
    let err = print_error("boom");
    assert!(matches!(&err[1], Line::Error(s) if s == "boom"));
}
