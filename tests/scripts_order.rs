use force::config::{
    collect_scripts, default_remove_on_down, default_worktree_path, script_name, sort_scripts,
    ForceConfig, LoadedScript, Script, ScriptCommand, ScriptMeta, WorktreeConfig,
};
use force::error::ForceError;
use force::runner::{Pipeline, StepAction};

fn script(name: &str, category: &str, priority: Option<i32>, down: bool) -> LoadedScript {
    LoadedScript {
        name: name.to_string(),
        script: Script {
            meta: ScriptMeta { category: category.to_string(), priority },
            up: ScriptCommand { run: format!("echo up {}", name), description: None },
            down: if down {
                Some(ScriptCommand { run: format!("echo down {}", name), description: None })
            } else {
                None
            },
        },
    }
}

fn names(v: &[LoadedScript]) -> Vec<&str> {
    v.iter().map(|s| s.name.as_str()).collect()
}

#[test]
fn test_force_config_defaults() {
    let config = ForceConfig::default();
    assert_eq!(config.worktree.path, "../worktrees/$FORCE_FEATURE_SLUG");
    assert!(config.worktree.remove_on_down);
}

#[test]
fn worktree_config_defaults() {
    let w = WorktreeConfig::default();
    assert_eq!(w.path, default_worktree_path());
    assert_eq!(w.remove_on_down, default_remove_on_down());
}

#[test]
fn script_files_are_selected_by_extension() {
    assert_eq!(script_name("env.toml"), Some("env".to_string()));
    assert_eq!(script_name("a.b.toml"), Some("a.b".to_string()));
    assert_eq!(script_name("config.toml"), None);
    assert_eq!(script_name("notes.md"), None);
    assert_eq!(script_name(".toml"), None);
    assert_eq!(script_name("toml"), None);
    assert_eq!(script_name("config.toml.bak"), None);
}

#[test]
fn category_then_priority_then_name() {
    let input = vec![
        script("setup_high", "setup", Some(10), true),
        script("svc_low", "services", Some(1), true),
        script("setup_low", "setup", Some(1), true),
        script("svc_high", "services", Some(10), true),
    ];
    let sorted = sort_scripts(input);
    assert_eq!(names(&sorted), ["svc_low", "svc_high", "setup_low", "setup_high"]);
}

#[test]
fn missing_priority_counts_as_zero_and_negative_sorts_first() {
    let input = vec![
        script("b", "setup", None, true),
        script("c", "setup", Some(1), true),
        script("a", "setup", Some(0), true),
        script("z", "setup", Some(-10), true),
    ];
    assert_eq!(names(&sort_scripts(input)), ["z", "a", "b", "c"]);
}

#[test]
fn filename_breaks_ties() {
    let input = vec![
        script("charlie", "setup", None, true),
        script("alpha", "setup", None, true),
        script("bravo", "setup", None, true),
    ];
    assert_eq!(names(&sort_scripts(input)), ["alpha", "bravo", "charlie"]);
}

#[test]
fn up_order_and_exact_reverse_down_order() {
    let input = vec![
        script("setup10", "setup", Some(10), true),
        script("services10", "services", Some(10), true),
        script("setup1", "setup", Some(1), true),
        script("services1", "services", Some(1), true),
    ];
    let scripts = collect_scripts(input.into_iter().map(Ok).collect()).unwrap();
    let up = Pipeline::up(&scripts);
    let up_names: Vec<&str> = up.steps.iter().map(|s| s.name.as_str()).collect();
    assert_eq!(up_names, ["services1", "services10", "setup1", "setup10"]);
    let down = Pipeline::down(&scripts);
    let down_names: Vec<&str> = down.steps.iter().map(|s| s.name.as_str()).collect();
    assert_eq!(down_names, ["setup10", "setup1", "services10", "services1"]);
}

#[test]
fn first_load_error_fails_the_whole_load() {
    let loaded = vec![
        Ok(script("a", "setup", None, true)),
        Err(ForceError::Parse { path: "x.toml".to_string(), detail: "bad".to_string() }),
        Err(ForceError::Parse { path: "y.toml".to_string(), detail: "worse".to_string() }),
    ];
    let e = collect_scripts(loaded).unwrap_err();
    assert_eq!(e.message(), "Failed to parse x.toml: bad");
    assert!(collect_scripts(Vec::new()).unwrap().is_empty());
}

#[test]
fn up_pipeline_runs_each_command_in_order() {
    let mut s = script("env", "setup", None, false);
    s.script.up.description = Some("Write env files".to_string());
    let scripts = vec![s, script("db", "setup", Some(5), true)];
    let mut p = Pipeline::up(&scripts);
    match p.next_action() {
        StepAction::Run { header, command } => {
            assert_eq!(header, "[setup/env] Write env files");
            assert_eq!(command, "echo up env");
        }
        _ => panic!("expected a run"),
    }
    p.advance(Some(0));
    match p.next_action() {
        StepAction::Run { header, command } => {
            assert_eq!(header, "[setup/db] db");
            assert_eq!(command, "echo up db");
        }
        _ => panic!("expected a run"),
    }
    p.advance(Some(0));
    assert!(matches!(p.next_action(), StepAction::Succeeded));
    assert_eq!(p.outcome(), Some(Ok(())));
}

#[test]
fn failing_up_script_stops_the_rest() {
    let scripts = vec![
        script("first", "setup", Some(1), true),
        script("failing", "setup", Some(2), true),
        script("third", "setup", Some(3), true),
    ];
    let mut p = Pipeline::up(&scripts);
    p.advance(Some(0));
    p.advance(Some(3));
    assert!(matches!(p.next_action(), StepAction::Failed));
    p.advance(Some(0));
    p.advance(Some(0));
    assert!(matches!(p.next_action(), StepAction::Failed));
    assert_eq!(p.next, 1);
    let e = p.outcome().unwrap().unwrap_err();
    assert_eq!(
        e,
        ForceError::ScriptFailed { name: "failing".to_string(), code: 3, down: false }
    );
    assert_eq!(e.message(), "Script 'failing' failed with exit code 3");
}

#[test]
fn script_killed_without_code_reports_minus_one() {
    let scripts = vec![script("x", "setup", None, true)];
    let mut p = Pipeline::down(&scripts);
    p.advance(None);
    let e = p.outcome().unwrap().unwrap_err();
    assert_eq!(e.message(), "Script 'x' down failed with exit code -1");
}

#[test]
fn down_skips_scripts_without_down() {
    let scripts = vec![
        script("with_down", "setup", Some(1), true),
        script("without_down", "setup", Some(2), false),
    ];
    let mut p = Pipeline::down(&scripts);
    match p.next_action() {
        StepAction::Skip { notice } => {
            assert_eq!(notice, "[setup/without_down] (no down script, skipping)")
        }
        _ => panic!("expected a skip"),
    }
    p.advance(None);
    match p.next_action() {
        StepAction::Run { command, .. } => assert_eq!(command, "echo down with_down"),
        _ => panic!("expected a run"),
    }
    p.advance(Some(0));
    assert_eq!(p.outcome(), Some(Ok(())));
}
