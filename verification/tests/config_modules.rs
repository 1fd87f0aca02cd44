use sit::config::{CommitConfig, Config, ConfigWarning, Module, RawCommit, RawConfig, RawModule};

fn module(name: &str, desc: &str, paths: &[&str]) -> Module {
    Module {
        name: name.to_string(),
        description: desc.to_string(),
        paths: paths.iter().map(|p| p.to_string()).collect(),
    }
}

fn config_with(modules: Vec<Module>) -> Config {
    Config { commit: CommitConfig::default(), categories: vec![], modules }
}

#[test]
fn config_load_parses_module_paths_and_recommends_default() {
    let local = RawConfig {
        commit: Some(RawCommit {
            template: Some("$type($mod): $message".to_string()),
            ask_description: Some(true),
            attach_emoji: None,
            show_emoji: None,
            auto_push: Some(false),
        }),
        categories: None,
        modules: Some(vec![
            (
                "git".to_string(),
                RawModule::Table {
                    desc: Some("Git operations".to_string()),
                    path: Some("src/git".to_string()),
                    paths: None,
                },
            ),
            (
                "ui".to_string(),
                RawModule::Table {
                    desc: Some("User interface".to_string()),
                    path: None,
                    paths: Some(vec!["src/ui".to_string(), "src/style".to_string()]),
                },
            ),
        ]),
    };
    let (cfg, warnings) = Config::load(None, Some(local));
    assert!(warnings.is_empty());

    assert_eq!(cfg.modules.len(), 2);
    assert_eq!(cfg.modules[0].name, "git");
    assert_eq!(cfg.modules[0].paths, vec!["src/git"]);
    assert_eq!(cfg.modules[1].name, "ui");
    assert_eq!(cfg.modules[1].paths, vec!["src/ui", "src/style"]);

    let changed = vec![
        "src/ui/selectors.rs".to_string(),
        "src/style.rs".to_string(),
        "src/git/log.rs".to_string(),
    ];

    assert_eq!(cfg.recommended_module_name(&changed), Some("git"));
}

#[test]
fn recommended_module_matches_rename_paths() {
    let cfg = config_with(vec![
        module("git", "Git operations", &["src/git"]),
        module("ui", "UI", &["src/ui"]),
    ]);
    let changed = vec!["src/old/log.rs -> src/git/log.rs".to_string()];
    assert_eq!(cfg.recommended_module_name(&changed), Some("git"));
}

#[test]
fn format_subject_handles_none_and_module_placeholder_collapse() {
    let cfg = Config::default();

    let none_subject = cfg.format_subject("none", Some("ui"), "improve picker");
    assert_eq!(none_subject, "(ui): improve picker");

    let collapsed = cfg.format_subject("feat", None, "improve picker");
    assert_eq!(collapsed, "feat: improve picker");
}

#[test]
fn format_commit_appends_description_block() {
    let cfg = Config::default();
    let message = cfg.format_commit("fix", Some("git"), "handle rename", "More details");
    assert_eq!(message, "fix(git): handle rename\n\nMore details");
}

#[test]
fn recommended_module_returns_none_when_no_paths_match() {
    let cfg = config_with(vec![module("ui", "ui", &["src/ui"])]);
    let changed = vec!["src/git/log.rs".to_string()];
    assert_eq!(cfg.recommended_module_name(&changed), None);
}

#[test]
fn recommended_module_tie_uses_config_order() {
    let cfg = config_with(vec![
        module("first", "first", &["src/shared"]),
        module("second", "second", &["src/shared"]),
    ]);
    let changed = vec!["src/shared/file.rs".to_string()];
    assert_eq!(cfg.recommended_module_name(&changed), Some("first"));
}

#[test]
fn local_commit_settings_override_global_ones() {
    let global = RawConfig {
        commit: Some(RawCommit {
            template: Some("[$type] $message".to_string()),
            ask_description: Some(false),
            attach_emoji: None,
            show_emoji: None,
            auto_push: Some(true),
        }),
        categories: None,
        modules: None,
    };
    let local = RawConfig {
        commit: Some(RawCommit {
            template: None,
            ask_description: Some(true),
            attach_emoji: None,
            show_emoji: None,
            auto_push: None,
        }),
        categories: None,
        modules: None,
    };
    let (cfg, _) = Config::load(Some(global), Some(local));
    assert_eq!(cfg.commit.template, "[$type] $message");
    assert!(cfg.commit.ask_description);
    assert!(cfg.commit.auto_push);
    assert_eq!(cfg.format_subject("feat", None, "x"), "[feat] x");
}

#[test]
fn invalid_module_entries_are_skipped_with_a_warning() {
    let local = RawConfig {
        commit: None,
        categories: None,
        modules: Some(vec![
            ("bad".to_string(), RawModule::Invalid("expected a table".to_string())),
            ("ok".to_string(), RawModule::Shorthand("fine".to_string())),
        ]),
    };
    let (cfg, warnings) = Config::load(None, Some(local));
    assert_eq!(cfg.modules.len(), 1);
    assert_eq!(cfg.modules[0].name, "ok");
    assert!(cfg.modules[0].paths.is_empty());
    assert_eq!(warnings.len(), 1);
    assert!(matches!(&warnings[0], ConfigWarning::InvalidModule { name, .. } if name == "bad"));
}

#[test]
fn module_paths_are_normalized() {
    assert_eq!(sit::config::normalize_module_path("  ./src/ui/ "), "src/ui");
    assert_eq!(sit::config::normalize_module_path("././a//"), "a");
}

#[test]
fn default_config_has_the_built_in_categories() {
    let cfg = Config::default();
    assert_eq!(cfg.categories.len(), 13);
    assert_eq!(cfg.categories[0].name, "feat");
    assert_eq!(cfg.categories[12].name, "none");
    assert!(!cfg.has_modules());
    assert!(Config::default_toml().contains("[commit]"));
}
