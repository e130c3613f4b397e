use plzplz::config::{PlzConfig, Task, TaskGroup};
use plzplz::hooks::{
    find_git_hooks_dir, generate_hook_script, has_uninstalled_hooks, hint_for, repository_at,
    hook_needs_install, hook_state, install_action, installed_hook_version, is_plz_managed,
    stages_used, status_line, tasks_by_stage, tasks_for_stage, uninstall_action, HookAction,
    HookNotice, HookState, HooksError, StageTasks, HOOKS_VERSION, MANAGED_MARKER,
};
use plzplz::names::NameMap;

fn task(run: &str, hook: Option<&str>) -> Task {
    Task {
        run: Some(run.to_string()),
        run_serial: None,
        run_parallel: None,
        tool_env: None,
        dir: None,
        fail_hook: None,
        description: None,
        git_hook: hook.map(|h| h.to_string()),
    }
}

fn config(top: Vec<(&str, Task)>, groups: Vec<(&str, Vec<(&str, Task)>)>) -> PlzConfig {
    let mut tasks = NameMap::new();
    for (name, t) in top {
        tasks.insert(name.to_string(), t);
    }
    let taskgroup = if groups.is_empty() {
        None
    } else {
        let mut map = NameMap::new();
        for (name, members) in groups {
            let mut inner = NameMap::new();
            for (n, t) in members {
                inner.insert(n.to_string(), t);
            }
            map.insert(name.to_string(), TaskGroup { extends: None, tasks: inner });
        }
        Some(map)
    };
    PlzConfig { extends: None, taskgroup, tasks }
}

fn installed_hook_version_of(content: &str) -> Option<u32> {
    installed_hook_version(Some(content))
}

fn stage<'a>(stages: &'a [StageTasks], name: &str) -> &'a Vec<String> {
    &stages.iter().find(|s| s.stage == name).unwrap().tasks
}

#[test]
fn test_generate_hook_script() {
    let script = generate_hook_script("pre-commit");
    assert!(script.starts_with("#!/bin/sh\n"));
    assert!(script.contains(MANAGED_MARKER));
    assert!(script.contains(&format!("# plz:hooks_version={HOOKS_VERSION}")));
    assert!(script.contains("plz --no-interactive hooks run pre-commit"));
    assert!(script.contains("PLZ_SKIP_HOOKS"));
    assert!(script.contains("command -v plz"));
}

#[test]
fn test_generate_hook_script_commit_msg() {
    let script = generate_hook_script("commit-msg");
    assert!(script.contains("plz --no-interactive hooks run commit-msg"));
}

#[test]
fn hook_script_is_exact() {
    let script = generate_hook_script("pre-push");
    assert_eq!(
        script,
        "#!/bin/sh\n# plz:managed - do not edit\n# plz:hooks_version=2\n[ \"${PLZ_SKIP_HOOKS}\" = \"1\" ] && exit 0\ncommand -v plz >/dev/null 2>&1 || { echo \"plz not found in PATH, skipping pre-push hook\" >&2; exit 0; }\nplz --no-interactive hooks run pre-push\n"
    );
}

#[test]
fn hook_script_contains_skip_and_fallback() {
    let content = generate_hook_script("pre-commit");
    assert!(content.contains("PLZ_SKIP_HOOKS"));
    assert!(content.contains("command -v plz"));
    assert!(content.contains("plz --no-interactive hooks run pre-commit"));
    assert!(!content.contains("\"$@\""), "should not have $@");
}

#[test]
fn test_installed_hook_version_current() {
    assert_eq!(
        installed_hook_version(Some(&generate_hook_script("pre-commit"))),
        Some(HOOKS_VERSION)
    );
}

#[test]
fn test_installed_hook_version_v1() {
    let content = format!("#!/bin/sh\n{MANAGED_MARKER}\nplz hooks run pre-commit \"$@\"\n");
    assert_eq!(installed_hook_version(Some(&content)), Some(1));
}

#[test]
fn test_installed_hook_version_not_managed() {
    assert_eq!(installed_hook_version(Some("#!/bin/sh\necho custom\n")), None);
}

#[test]
fn test_installed_hook_version_missing() {
    assert_eq!(installed_hook_version(None), None);
}

#[test]
fn test_is_plz_managed_missing() {
    assert!(!is_plz_managed(None));
}

#[test]
fn installed_hook_version_reads_the_first_version_line() {
    assert_eq!(installed_hook_version_of("# plz:hooks_version= 7 \r\n# plz:hooks_version=9\n"), Some(7));
    assert_eq!(installed_hook_version_of("# plz:hooks_version=+12"), Some(12));
    assert_eq!(installed_hook_version_of("# plz:hooks_version=007\n"), Some(7));
    assert_eq!(installed_hook_version_of("# plz:hooks_version=4294967295\n"), Some(4294967295));
    assert_eq!(installed_hook_version_of("# plz:hooks_version=4294967296\n"), None);
    assert_eq!(installed_hook_version_of("# plz:hooks_version=\n# plz:managed - do not edit\n"), None);
    assert_eq!(installed_hook_version_of("# plz:hooks_version=2a\n"), None);
    assert_eq!(installed_hook_version_of("# plz:hooks_version=-1\n"), None);
    assert_eq!(installed_hook_version_of(" # plz:hooks_version=3\n"), None);
    assert_eq!(installed_hook_version_of(""), None);
}

#[test]
fn test_is_plz_managed_true() {
    let content = format!("#!/bin/sh\n{MANAGED_MARKER}\nplz hooks run pre-commit\n");
    assert!(is_plz_managed(Some(&content)));
}

#[test]
fn test_is_plz_managed_false() {
    assert!(!is_plz_managed(Some("#!/bin/sh\necho custom hook\n")));
    assert!(!is_plz_managed(Some("")));
    assert!(!is_plz_managed(Some("# plz:managed - do not edi")));
}

#[test]
fn hook_states() {
    assert_eq!(hook_state(None), HookState::Absent);
    assert_eq!(hook_state(Some("#!/bin/sh\necho custom\n")), HookState::Foreign);
    let old = format!("#!/bin/sh\n{MANAGED_MARKER}\nplz hooks run pre-commit \"$@\"\n");
    assert_eq!(hook_state(Some(&old)), HookState::Outdated);
    let broken = format!("{MANAGED_MARKER}\n# plz:hooks_version=x\n");
    assert_eq!(hook_state(Some(&broken)), HookState::Outdated);
    let current = generate_hook_script("pre-commit");
    assert_eq!(hook_state(Some(&current)), HookState::Current);
    let newer = format!("{MANAGED_MARKER}\n# plz:hooks_version=3\n");
    assert_eq!(hook_state(Some(&newer)), HookState::Current);
    assert!(hook_needs_install(None));
    assert!(hook_needs_install(Some("echo")));
    assert!(hook_needs_install(Some(&old)));
    assert!(!hook_needs_install(Some(&current)));
}

#[test]
fn uninstalled_hooks_are_noticed() {
    let current = generate_hook_script("pre-commit");
    assert!(!has_uninstalled_hooks(true, &vec![]));
    assert!(!has_uninstalled_hooks(true, &vec![Some(current.clone())]));
    assert!(has_uninstalled_hooks(true, &vec![Some(current.clone()), None]));
    assert!(!has_uninstalled_hooks(false, &vec![None]));
}

#[test]
fn tasks_by_stage_groups_correctly() {
    let cfg = config(
        vec![
            ("lint", task("cargo clippy", Some("pre-commit"))),
            ("fmt", task("cargo fmt --check", Some("pre-commit"))),
            ("test", task("cargo test", Some("pre-push"))),
            ("build", task("cargo build", None)),
        ],
        vec![],
    );
    let stages = tasks_by_stage(&cfg);
    assert_eq!(stages.len(), 2);
    assert_eq!(stage(&stages, "pre-commit").len(), 2);
    assert!(stage(&stages, "pre-commit").contains(&"lint".to_string()));
    assert!(stage(&stages, "pre-commit").contains(&"fmt".to_string()));
    assert_eq!(stage(&stages, "pre-push"), &vec!["test"]);
    assert_eq!(stage(&stages, "pre-commit"), &vec!["fmt", "lint"]);
    assert_eq!(stages[0].stage, "pre-commit");
    assert_eq!(stages[1].stage, "pre-push");
}

#[test]
fn tasks_by_stage_includes_group_tasks() {
    let cfg = config(
        vec![("lint", task("cargo clippy", Some("pre-commit")))],
        vec![(
            "rust",
            vec![
                ("fmt", task("cargo fmt --check", Some("pre-commit"))),
                ("test", task("cargo test", Some("pre-push"))),
            ],
        )],
    );
    let stages = tasks_by_stage(&cfg);
    assert_eq!(stages.len(), 2);
    let pre_commit = stage(&stages, "pre-commit");
    assert!(pre_commit.contains(&"lint".to_string()));
    assert!(pre_commit.contains(&"rust:fmt".to_string()));
    let pre_push = stage(&stages, "pre-push");
    assert!(pre_push.contains(&"rust:test".to_string()));
}

#[test]
fn stage_tasks_come_in_order() {
    let cfg = config(
        vec![
            ("zeta", task("z", Some("pre-commit"))),
            ("Alpha", task("a", Some("pre-commit"))),
            ("alpha", task("a", Some("pre-commit"))),
            ("al", task("a", Some("pre-commit"))),
            ("other", task("o", Some("commit-msg"))),
        ],
        vec![
            ("web", vec![("b", task("b", Some("pre-commit"))), ("a", task("a", Some("pre-commit")))]),
            ("api", vec![("x", task("x", Some("pre-commit"))), ("y", task("y", None))]),
        ],
    );
    assert_eq!(
        tasks_for_stage(&cfg, "pre-commit"),
        vec!["Alpha", "al", "alpha", "zeta", "api:x", "web:a", "web:b"]
    );
    assert_eq!(tasks_for_stage(&cfg, "commit-msg"), vec!["other"]);
    assert!(tasks_for_stage(&cfg, "pre-push").is_empty());
    assert_eq!(stages_used(&cfg), vec!["commit-msg", "pre-commit"]);
}

#[test]
fn run_stage_unconfigured_stage_succeeds() {
    let cfg = config(vec![("check", task("echo hi", Some("pre-commit")))], vec![]);
    assert!(tasks_for_stage(&cfg, "pre-push").is_empty());
}

#[test]
fn find_git_hooks_dir_walks_up() {
    let ancestors = vec![
        ("/repo/a/b/c".to_string(), false),
        ("/repo/a/b".to_string(), false),
        ("/repo/a".to_string(), false),
        ("/repo".to_string(), true),
        ("/".to_string(), true),
    ];
    let hooks_dir = find_git_hooks_dir(&ancestors).unwrap();
    assert_eq!(hooks_dir, "/repo/.git/hooks");
}

#[test]
fn find_git_hooks_dir_fails_without_git() {
    let ancestors = vec![("/tmp/x".to_string(), false), ("/tmp".to_string(), false)];
    let err = find_git_hooks_dir(&ancestors).unwrap_err();
    assert!(matches!(err, HooksError::NotARepository));
    assert_eq!(err.message(), "Not a git repository (no .git directory found)");
    assert!(find_git_hooks_dir(&vec![]).is_err());
}

#[test]
fn status_lines() {
    let names = vec!["lint".to_string(), "rust:fmt".to_string()];
    assert_eq!(
        status_line("pre-commit", &names, HookState::Current),
        "\x1b[32m✓\x1b[0m pre-commit: lint, rust:fmt"
    );
    assert_eq!(
        status_line("pre-commit", &names, HookState::Outdated),
        "\x1b[33m↑\x1b[0m pre-commit: lint, rust:fmt \x1b[33m(outdated)\x1b[0m"
    );
    assert_eq!(
        status_line("pre-push", &vec!["t".to_string()], HookState::Absent),
        "\x1b[2m·\x1b[0m pre-push: t"
    );
    assert_eq!(
        status_line("pre-push", &vec![], HookState::Foreign),
        "\x1b[2m·\x1b[0m pre-push: "
    );
}

#[test]
fn install_skips_non_managed_hooks() {
    assert_eq!(install_action(hook_state(Some("#!/bin/sh\necho custom\n"))), HookAction::Skip);
    assert_eq!(
        HookNotice::InstallSkipped("pre-commit".to_string()).text(),
        "\x1b[33mWarning:\x1b[0m Skipping pre-commit — existing hook is not plz-managed"
    );
}

#[test]
fn install_creates_hook_scripts() {
    assert_eq!(install_action(hook_state(None)), HookAction::Write);
    assert_eq!(
        HookNotice::Installed("pre-commit".to_string(), vec!["lint".to_string(), "fmt".to_string()]).text(),
        "\x1b[32m✓\x1b[0m Installed pre-commit hook (tasks: lint, fmt)"
    );
}

#[test]
fn install_overwrites_managed_hooks() {
    let old = format!("#!/bin/sh\n{MANAGED_MARKER}\nold content\n");
    assert_eq!(install_action(hook_state(Some(&old))), HookAction::Write);
    assert_eq!(install_action(hook_state(Some(&generate_hook_script("pre-commit")))), HookAction::Write);
}

#[test]
fn install_upgrades_outdated_hooks() {
    let old = format!("#!/bin/sh\n{MANAGED_MARKER}\nplz hooks run pre-commit \"$@\"\n");
    assert_eq!(hook_state(Some(&old)), HookState::Outdated);
    assert_eq!(install_action(HookState::Outdated), HookAction::Write);
}

#[test]
fn uninstall_removes_managed_hooks() {
    let script = generate_hook_script("pre-commit");
    assert_eq!(uninstall_action(hook_state(Some(&script))), HookAction::Remove);
    assert_eq!(uninstall_action(HookState::Outdated), HookAction::Remove);
    assert_eq!(uninstall_action(hook_state(None)), HookAction::Nothing);
    assert_eq!(HookNotice::Removed("pre-push".to_string()).text(), "\x1b[32m✓\x1b[0m Removed pre-push hook");
}

#[test]
fn uninstall_skips_non_managed_hooks() {
    assert_eq!(uninstall_action(hook_state(Some("#!/bin/sh\necho custom\n"))), HookAction::Skip);
    assert_eq!(
        HookNotice::RemoveSkipped("pre-push".to_string()).text(),
        "\x1b[33mWarning:\x1b[0m Skipping pre-push — not plz-managed"
    );
}

#[test]
fn hook_notices_in_words() {
    assert_eq!(HookNotice::NoneConfigured.text(), "No tasks have git_hook configured in plz.toml");
    assert_eq!(
        HookNotice::Running("pre-commit".to_string(), vec!["a".to_string(), "g:b".to_string()]).text(),
        "\x1b[36m🙏 Running pre-commit hook (a, g:b)\x1b[0m"
    );
    assert_eq!(HookNotice::Passed("pre-commit".to_string()).text(), "\x1b[32m✓ pre-commit hook passed\x1b[0m");
    assert!(hint_for(true, false, true, true).is_none());
    assert!(matches!(hint_for(false, false, true, true), Some(HookNotice::SetupHint)));
    assert!(matches!(hint_for(false, true, true, true), Some(HookNotice::InstallHint)));
    assert!(hint_for(false, true, false, true).is_none());
    assert!(hint_for(false, true, true, false).is_none());
    assert_eq!(
        HookNotice::SetupHint.text(),
        "\x1b[2mRun `plz plz` to set up custom settings and templates.\x1b[0m"
    );
    assert_eq!(
        HookNotice::InstallHint.text(),
        "\x1b[2mYour plz.toml has git hooks that need to be installed or updated. Run `plz hooks` to install them.\x1b[0m"
    );
}

#[test]
fn the_nearest_repository_is_found() {
    let dirs = |found: &[bool]| -> Vec<(String, bool)> {
        found.iter().enumerate().map(|(i, f)| (format!("/d{i}"), *f)).collect()
    };
    assert_eq!(repository_at(&dirs(&[])), None);
    assert_eq!(repository_at(&dirs(&[false, false])), None);
    assert_eq!(repository_at(&dirs(&[true])), Some(0));
    assert_eq!(repository_at(&dirs(&[false, true, true])), Some(1));
    assert_eq!(repository_at(&dirs(&[false, false, true])), Some(2));
    let hooks_dir = find_git_hooks_dir(&dirs(&[false, true, true])).unwrap();
    assert_eq!(hooks_dir, "/d1/.git/hooks");
    assert_eq!(find_git_hooks_dir(&vec![(String::new(), true)]).unwrap(), ".git/hooks");
}
