use plzplz::cli::{
    builtin, conclude, is_interactive, resolve_task, task_menu, Builtin, CliError, Reply,
    Resolution, ResolvedTask, Silence,
};
use plzplz::config::{PlzConfig, Task, TaskGroup};
use plzplz::names::NameMap;

fn task(run: &str, description: Option<&str>) -> Task {
    Task {
        run: Some(run.to_string()),
        run_serial: None,
        run_parallel: None,
        tool_env: None,
        dir: None,
        fail_hook: None,
        description: description.map(|d| d.to_string()),
        git_hook: None,
    }
}

fn config(top: Vec<(&str, Task)>, groups: Vec<(&str, Vec<(&str, Task)>)>) -> PlzConfig {
    let mut tasks = NameMap::new();
    for (name, t) in top {
        tasks.insert(name.to_string(), t);
    }
    let taskgroup = if groups.is_empty() {
        None
    } else {
        let mut map = NameMap::new();
        for (name, members) in groups {
            let mut inner = NameMap::new();
            for (n, t) in members {
                inner.insert(n.to_string(), t);
            }
            map.insert(name.to_string(), TaskGroup { extends: None, tasks: inner });
        }
        Some(map)
    };
    PlzConfig { extends: None, taskgroup, tasks }
}

fn words(w: &[&str]) -> Vec<String> {
    w.iter().map(|s| s.to_string()).collect()
}

fn sample() -> PlzConfig {
    config(
        vec![
            ("hello", task("echo hello", Some("Say hello"))),
            ("build", task("make", None)),
            ("bundle", task("pack", None)),
        ],
        vec![
            ("rust", vec![("test", task("cargo test", Some("Run tests"))), ("bench", task("cargo bench", None))]),
            ("empty", vec![]),
        ],
    )
}

fn failure(r: Resolution) -> String {
    match r {
        Resolution::Failed(e) => e.message(),
        other => panic!("expected a failure, got {other:?}"),
    }
}

#[test]
fn interactivity_is_decided_in_order() {
    assert_eq!(is_interactive(false, false, false, true), Ok(()));
    assert_eq!(is_interactive(true, true, true, false), Err(Silence::Flag));
    assert_eq!(is_interactive(false, true, true, false), Err(Silence::Nested));
    assert_eq!(is_interactive(false, false, true, false), Err(Silence::Ci));
    assert_eq!(is_interactive(false, false, false, false), Err(Silence::NoTerminal));
    assert_eq!(Silence::Flag.notice(), None);
    assert_eq!(Silence::Nested.notice(), None);
    assert_eq!(Silence::Ci.notice(), Some("Skipping interactive prompts: CI environment detected"));
    assert_eq!(
        Silence::NoTerminal.notice(),
        Some("Skipping interactive prompts: stdin is not a terminal")
    );
}

#[test]
fn cli_run_task() {
    let cfg = sample();
    match resolve_task(&cfg, "hello", &words(&["x"]), false) {
        Resolution::Resolved(ResolvedTask::Task(n)) => assert_eq!(n, "hello"),
        other => panic!("{other:?}"),
    }
}

#[test]
fn cli_run_unknown_task_errors() {
    let cfg = config(vec![("hello", task("echo hello", None))], vec![]);
    let message = failure(resolve_task(&cfg, "nonexistent", &vec![], false));
    assert!(message.contains("isn't a task"));
    assert_eq!(message, "\"nonexistent\" isn't a task. Run `plz` to see all commands.");
}

#[test]
fn cli_run_group_task() {
    let cfg = sample();
    match resolve_task(&cfg, "rust", &words(&["test", "more"]), false) {
        Resolution::Resolved(ResolvedTask::GroupTask(g, t)) => {
            assert_eq!(g, "rust");
            assert_eq!(t, "test");
        }
        other => panic!("{other:?}"),
    }
}

#[test]
fn cli_top_level_wins_over_group() {
    let cfg = config(
        vec![("rust", task("touch top.txt", None))],
        vec![("rust", vec![("test", task("echo test", None))])],
    );
    match resolve_task(&cfg, "rust", &words(&["test"]), true) {
        Resolution::Resolved(ResolvedTask::Task(n)) => assert_eq!(n, "rust"),
        other => panic!("{other:?}"),
    }
}

#[test]
fn cli_group_no_task_non_interactive_errors() {
    let cfg = sample();
    let message = failure(resolve_task(&cfg, "rust", &vec![], false));
    assert!(message.contains("No task specified for group"));
    assert_eq!(message, "No task specified for group \"rust\". Available tasks: bench, test");
}

#[test]
fn cli_group_unknown_task_errors() {
    let cfg = sample();
    let message = failure(resolve_task(&cfg, "rust", &words(&["nonexistent"]), false));
    assert!(message.contains("isn't a task"));
    assert_eq!(message, "\"rust:nonexistent\" isn't a task. Run `plz rust` to see group tasks.");
    let message = failure(resolve_task(&cfg, "rust", &words(&["zzz"]), true));
    assert_eq!(message, "\"rust:zzz\" isn't a task. Run `plz rust` to see group tasks.");
}

#[test]
fn group_without_task_is_picked_from() {
    let cfg = sample();
    match resolve_task(&cfg, "rust", &vec![], true) {
        Resolution::Pick { group, names, descriptions, missed } => {
            assert_eq!(group.as_deref(), Some("rust"));
            assert_eq!(names, vec!["bench", "test"]);
            assert_eq!(descriptions, vec!["", "Run tests"]);
            assert_eq!(missed, None);
        }
        other => panic!("{other:?}"),
    }
    assert_eq!(
        failure(resolve_task(&cfg, "empty", &vec![], true)),
        "No tasks defined in group \"empty\""
    );
    assert_eq!(
        failure(resolve_task(&cfg, "empty", &vec![], false)),
        "No task specified for group \"empty\". Available tasks: "
    );
}

#[test]
fn a_single_match_is_confirmed() {
    let cfg = sample();
    let r = resolve_task(&cfg, "hlo", &vec![], true);
    match &r {
        Resolution::Confirm { group, name } => {
            assert_eq!(group, &None);
            assert_eq!(name, "hello");
        }
        other => panic!("{other:?}"),
    }
    match conclude(r, Reply::Confirmed(true)) {
        Ok(ResolvedTask::Task(n)) => assert_eq!(n, "hello"),
        other => panic!("{other:?}"),
    }
    let r = resolve_task(&cfg, "rust", &words(&["tst"]), true);
    match conclude(r, Reply::Confirmed(true)) {
        Ok(ResolvedTask::GroupTask(g, n)) => {
            assert_eq!(g, "rust");
            assert_eq!(n, "test");
        }
        other => panic!("{other:?}"),
    }
    let r = resolve_task(&cfg, "hlo", &vec![], true);
    assert!(matches!(conclude(r, Reply::Confirmed(false)), Err(CliError::Cancelled)));
    let r = resolve_task(&cfg, "hlo", &vec![], true);
    assert!(matches!(conclude(r, Reply::Chosen(Some(0))), Err(CliError::Cancelled)));
}

#[test]
fn several_matches_are_chosen_from() {
    let cfg = sample();
    let r = resolve_task(&cfg, "bu", &vec![], true);
    match &r {
        Resolution::Select { group, names } => {
            assert_eq!(group, &None);
            assert_eq!(names, &vec!["build", "bundle"]);
        }
        other => panic!("{other:?}"),
    }
    match conclude(r, Reply::Chosen(Some(1))) {
        Ok(ResolvedTask::Task(n)) => assert_eq!(n, "bundle"),
        other => panic!("{other:?}"),
    }
    let r = resolve_task(&cfg, "bu", &vec![], true);
    assert!(matches!(conclude(r, Reply::Chosen(Some(2))), Err(CliError::Cancelled)));
    let r = resolve_task(&cfg, "bu", &vec![], true);
    assert_eq!(conclude(r, Reply::Chosen(None)).unwrap_err().message(), "Cancelled");
}

#[test]
fn no_match_offers_every_task() {
    let cfg = sample();
    let r = resolve_task(&cfg, "zzz", &vec![], true);
    match &r {
        Resolution::Pick { group, names, descriptions, missed } => {
            assert_eq!(group, &None);
            assert_eq!(names, &vec!["build", "bundle", "hello"]);
            assert_eq!(descriptions, &vec!["", "", "Say hello"]);
            assert_eq!(missed.as_deref(), Some("zzz"));
        }
        other => panic!("{other:?}"),
    }
    match conclude(r, Reply::Chosen(Some(2))) {
        Ok(ResolvedTask::Task(n)) => assert_eq!(n, "hello"),
        other => panic!("{other:?}"),
    }
    let none = config(vec![], vec![]);
    assert_eq!(failure(resolve_task(&none, "x", &vec![], true)), "No tasks defined in plz.toml");
    assert_eq!(
        failure(resolve_task(&none, "x", &vec![], false)),
        "\"x\" isn't a task. Run `plz` to see all commands."
    );
}

#[test]
fn the_menu_lists_every_task_in_order() {
    let cfg = sample();
    let menu = task_menu(&cfg);
    let labels: Vec<&str> = menu.iter().map(|e| e.label.as_str()).collect();
    assert_eq!(labels, vec!["build", "bundle", "hello", "rust:bench", "rust:test"]);
    assert_eq!(menu[2].description, "Say hello");
    assert_eq!(menu[4].description, "Run tests");
    assert_eq!(menu[0].description, "");
    assert!(matches!(&menu[0].task, ResolvedTask::Task(n) if n == "build"));
    assert!(matches!(&menu[3].task, ResolvedTask::GroupTask(g, n) if g == "rust" && n == "bench"));
    assert!(task_menu(&config(vec![], vec![])).is_empty());
}

#[test]
fn builtin_commands_are_read() {
    assert_eq!(builtin("init", None), Some(Builtin::Init));
    assert_eq!(builtin("add", Some("x")), Some(Builtin::Add));
    assert_eq!(builtin("schema", None), Some(Builtin::Schema));
    assert_eq!(builtin("cheatsheet", None), Some(Builtin::Cheatsheet));
    assert_eq!(builtin("update", None), Some(Builtin::Update));
    assert_eq!(builtin("help", None), Some(Builtin::Help));
    assert_eq!(builtin("hooks", None), Some(Builtin::Hooks));
    assert_eq!(builtin("hooks", Some("install")), Some(Builtin::HooksInstall));
    assert_eq!(builtin("hooks", Some("uninstall")), Some(Builtin::HooksUninstall));
    assert_eq!(builtin("hooks", Some("add")), Some(Builtin::HooksAdd));
    assert_eq!(builtin("hooks", Some("run")), Some(Builtin::Hooks));
    assert_eq!(builtin("Init", None), None);
    assert_eq!(builtin("build", Some("install")), None);
    assert_eq!(builtin("", None), None);
}
