use plzplz::config::{extract_comment, ConfigError, GlobalSettings, PlzConfig, Task, TaskGroup};
use plzplz::names::NameMap;

fn task(run: &str) -> Task {
    Task {
        run: Some(run.to_string()),
        run_serial: None,
        run_parallel: None,
        tool_env: None,
        dir: None,
        fail_hook: None,
        description: None,
        git_hook: None,
    }
}

fn task_in(run: &str, env: Option<&str>, dir: Option<&str>) -> Task {
    let mut t = task(run);
    t.tool_env = env.map(|s| s.to_string());
    t.dir = dir.map(|s| s.to_string());
    t
}

fn extends(env: Option<&str>, dir: Option<&str>) -> Option<GlobalSettings> {
    Some(GlobalSettings { tool_env: env.map(|s| s.to_string()), dir: dir.map(|s| s.to_string()) })
}

fn tasks(entries: Vec<(&str, Task)>) -> NameMap<Task> {
    let mut map = NameMap::new();
    for (name, t) in entries {
        map.insert(name.to_string(), t);
    }
    map
}

fn group(extends: Option<GlobalSettings>, entries: Vec<(&str, Task)>) -> TaskGroup {
    TaskGroup { extends, tasks: tasks(entries) }
}

fn groups(entries: Vec<(&str, TaskGroup)>) -> Option<NameMap<TaskGroup>> {
    let mut map = NameMap::new();
    for (name, g) in entries {
        map.insert(name.to_string(), g);
    }
    Some(map)
}

fn message(e: ConfigError) -> String {
    e.message()
}

#[test]
fn extract_comment_single_line() {
    assert_eq!(extract_comment("# Hello world\n"), Some("Hello world".to_string()));
}

#[test]
fn extract_comment_multi_line() {
    assert_eq!(
        extract_comment("# Line one\n# Line two\n"),
        Some("Line one Line two".to_string())
    );
}

#[test]
fn extract_comment_empty() {
    assert_eq!(extract_comment(""), None);
    assert_eq!(extract_comment("\n\n"), None);
}

#[test]
fn extract_comment_skips_other_lines_and_trims() {
    assert_eq!(
        extract_comment("\n  ## Build it  \r\nnot a comment\n#\n#last"),
        Some("Build it  last".to_string())
    );
    assert_eq!(extract_comment("x # not at the start\n"), None);
}

#[test]
fn parse_comment_description() {
    let mut t = task("cargo build");
    t.describe_from_comment("\n# Build the project\n");
    assert_eq!(t.description.as_deref(), Some("Build the project"));
}

#[test]
fn parse_explicit_description() {
    let mut t = task("cargo build");
    t.description = Some("Build the project".to_string());
    t.describe_from_comment("\n# Something else\n");
    assert_eq!(t.description.as_deref(), Some("Build the project"));
}

#[test]
fn taskgroup_comment_description() {
    let mut t = task("cargo test");
    t.describe_from_comment("\n# Run the tests\n");
    assert_eq!(t.description.as_deref(), Some("Run the tests"));
}

#[test]
fn extends_env_applies_to_all_tasks() {
    let raw = PlzConfig {
        extends: extends(Some("pnpm"), None),
        taskgroup: None,
        tasks: tasks(vec![("build", task("vite build")), ("dev", task("vite dev"))]),
    };
    let cfg = raw.resolve().unwrap();
    assert_eq!(cfg.tasks.get("build").unwrap().tool_env.as_deref(), Some("pnpm"));
    assert_eq!(cfg.tasks.get("dev").unwrap().tool_env.as_deref(), Some("pnpm"));
}

#[test]
fn extends_dir_applies_to_all_tasks() {
    let raw = PlzConfig {
        extends: extends(None, Some("packages/web")),
        taskgroup: None,
        tasks: tasks(vec![("build", task("echo build")), ("dev", task("echo dev"))]),
    };
    let cfg = raw.resolve().unwrap();
    assert_eq!(cfg.tasks.get("build").unwrap().dir.as_deref(), Some("packages/web"));
    assert_eq!(cfg.tasks.get("dev").unwrap().dir.as_deref(), Some("packages/web"));
}

#[test]
fn per_task_overrides_extends() {
    let raw = PlzConfig {
        extends: extends(Some("pnpm"), Some("packages/web")),
        taskgroup: None,
        tasks: tasks(vec![
            ("build", task("vite build")),
            ("api", task_in("node server.js", Some("npm"), Some("packages/api"))),
        ]),
    };
    let cfg = raw.resolve().unwrap();
    assert_eq!(cfg.tasks.get("build").unwrap().tool_env.as_deref(), Some("pnpm"));
    assert_eq!(cfg.tasks.get("build").unwrap().dir.as_deref(), Some("packages/web"));
    assert_eq!(cfg.tasks.get("api").unwrap().tool_env.as_deref(), Some("npm"));
    assert_eq!(cfg.tasks.get("api").unwrap().dir.as_deref(), Some("packages/api"));
}

#[test]
fn empty_string_opts_out_of_extends() {
    let raw = PlzConfig {
        extends: extends(Some("pnpm"), Some("packages/web")),
        taskgroup: None,
        tasks: tasks(vec![
            ("build", task("vite build")),
            ("plain", task_in("echo hi", Some(""), Some(""))),
        ]),
    };
    let cfg = raw.resolve().unwrap();
    assert_eq!(cfg.tasks.get("build").unwrap().tool_env.as_deref(), Some("pnpm"));
    assert_eq!(cfg.tasks.get("build").unwrap().dir.as_deref(), Some("packages/web"));
    assert_eq!(cfg.tasks.get("plain").unwrap().tool_env, None);
    assert_eq!(cfg.tasks.get("plain").unwrap().dir, None);
}

#[test]
fn empty_string_without_extends_is_unset() {
    let raw = PlzConfig {
        extends: None,
        taskgroup: None,
        tasks: tasks(vec![("plain", task_in("echo hi", Some(""), Some("")))]),
    };
    let cfg = raw.resolve().unwrap();
    assert_eq!(cfg.tasks.get("plain").unwrap().tool_env, None);
    assert_eq!(cfg.tasks.get("plain").unwrap().dir, None);
}

#[test]
fn parse_taskgroup_basic() {
    let raw = PlzConfig {
        extends: None,
        taskgroup: groups(vec![(
            "rust",
            group(None, vec![("test", task("cargo test")), ("build", task("cargo build"))]),
        )]),
        tasks: tasks(vec![("hello", task("echo hello"))]),
    };
    let cfg = raw.resolve().unwrap();
    assert!(cfg.get_group("rust").is_some());
    assert!(cfg.get_group_task("rust", "test").is_some());
    assert!(cfg.get_group_task("rust", "build").is_some());
    assert_eq!(cfg.get_group_task("rust", "test").unwrap().run.as_deref(), Some("cargo test"));
}

#[test]
fn taskgroup_extends_inherits_from_group() {
    let raw = PlzConfig {
        extends: None,
        taskgroup: groups(vec![(
            "frontend",
            group(
                extends(Some("pnpm"), Some("packages/web")),
                vec![("build", task("vite build")), ("dev", task("vite dev"))],
            ),
        )]),
        tasks: tasks(vec![("hello", task("echo hello"))]),
    };
    let cfg = raw.resolve().unwrap();
    let build = cfg.get_group_task("frontend", "build").unwrap();
    assert_eq!(build.tool_env.as_deref(), Some("pnpm"));
    assert_eq!(build.dir.as_deref(), Some("packages/web"));
    let dev = cfg.get_group_task("frontend", "dev").unwrap();
    assert_eq!(dev.tool_env.as_deref(), Some("pnpm"));
    assert_eq!(dev.dir.as_deref(), Some("packages/web"));
}

#[test]
fn taskgroup_cascade_top_level_to_group() {
    let raw = PlzConfig {
        extends: extends(Some("pnpm"), None),
        taskgroup: groups(vec![("web", group(None, vec![("build", task("vite build"))]))]),
        tasks: tasks(vec![("hello", task("echo hello"))]),
    };
    let cfg = raw.resolve().unwrap();
    let build = cfg.get_group_task("web", "build").unwrap();
    assert_eq!(build.tool_env.as_deref(), Some("pnpm"));
}

#[test]
fn taskgroup_group_extends_overrides_top_level() {
    let raw = PlzConfig {
        extends: extends(Some("pnpm"), Some("default")),
        taskgroup: groups(vec![(
            "api",
            group(extends(Some("npm"), Some("backend")), vec![("serve", task("node server.js"))]),
        )]),
        tasks: tasks(vec![("hello", task("echo hello"))]),
    };
    let cfg = raw.resolve().unwrap();
    let serve = cfg.get_group_task("api", "serve").unwrap();
    assert_eq!(serve.tool_env.as_deref(), Some("npm"));
    assert_eq!(serve.dir.as_deref(), Some("backend"));
}

#[test]
fn taskgroup_task_overrides_group_extends() {
    let raw = PlzConfig {
        extends: None,
        taskgroup: groups(vec![(
            "rust",
            group(
                extends(None, Some("backend")),
                vec![
                    ("test", task("cargo test")),
                    ("special", task_in("echo special", None, Some("other"))),
                ],
            ),
        )]),
        tasks: tasks(vec![("hello", task("echo hello"))]),
    };
    let cfg = raw.resolve().unwrap();
    let test = cfg.get_group_task("rust", "test").unwrap();
    assert_eq!(test.dir.as_deref(), Some("backend"));
    let special = cfg.get_group_task("rust", "special").unwrap();
    assert_eq!(special.dir.as_deref(), Some("other"));
}

#[test]
fn taskgroup_empty_string_opts_out() {
    let raw = PlzConfig {
        extends: extends(Some("pnpm"), None),
        taskgroup: groups(vec![(
            "misc",
            group(
                extends(None, Some("subdir")),
                vec![("plain", task_in("echo plain", Some(""), Some("")))],
            ),
        )]),
        tasks: tasks(vec![("hello", task("echo hello"))]),
    };
    let cfg = raw.resolve().unwrap();
    let plain = cfg.get_group_task("misc", "plain").unwrap();
    assert_eq!(plain.tool_env, None);
    assert_eq!(plain.dir, None);
}

#[test]
fn group_empty_string_default_opts_the_group_out() {
    let raw = PlzConfig {
        extends: extends(Some("pnpm"), Some("web")),
        taskgroup: groups(vec![(
            "bare",
            group(extends(Some(""), None), vec![("t", task("echo t"))]),
        )]),
        tasks: tasks(vec![]),
    };
    let cfg = raw.resolve().unwrap();
    let t = cfg.get_group_task("bare", "t").unwrap();
    assert_eq!(t.tool_env, None);
    assert_eq!(t.dir.as_deref(), Some("web"));
    let g = cfg.get_group("bare").unwrap();
    assert_eq!(g.extends.as_ref().unwrap().tool_env.as_deref(), Some(""));
}

#[test]
fn taskgroup_validates_git_hook() {
    let mut lint = task("cargo clippy");
    lint.git_hook = Some("not-a-hook".to_string());
    let raw = PlzConfig {
        extends: None,
        taskgroup: groups(vec![("rust", group(None, vec![("lint", lint)]))]),
        tasks: tasks(vec![("hello", task("echo hello"))]),
    };
    let err = message(raw.resolve().unwrap_err());
    assert!(err.contains("invalid git_hook"), "got: {err}");
    assert!(err.starts_with("Task \"rust:lint\" has invalid git_hook \"not-a-hook\". Valid hooks: applypatch-msg, pre-applypatch, "));
    assert!(err.ends_with(", post-rewrite, sendemail-validate"));
}

#[test]
fn reject_invalid_git_hook() {
    let mut lint = task("cargo clippy");
    lint.git_hook = Some("not-a-real-hook".to_string());
    let raw = PlzConfig { extends: None, taskgroup: None, tasks: tasks(vec![("lint", lint)]) };
    let err = message(raw.resolve().unwrap_err());
    assert!(err.contains("invalid git_hook"), "got: {err}");
    assert!(err.starts_with("Task \"lint\" has invalid git_hook \"not-a-real-hook\". Valid hooks: "));
}

#[test]
fn parse_git_hook_field() {
    let mut lint = task("cargo clippy");
    lint.git_hook = Some("pre-commit".to_string());
    let raw = PlzConfig { extends: None, taskgroup: None, tasks: tasks(vec![("lint", lint)]) };
    let cfg = raw.resolve().unwrap();
    assert_eq!(cfg.tasks.get("lint").unwrap().git_hook.as_deref(), Some("pre-commit"));
}

#[test]
fn top_level_hook_error_comes_before_group_error() {
    let mut a = task("a");
    a.git_hook = Some("nope".to_string());
    let mut b = task("b");
    b.git_hook = Some("never".to_string());
    let raw = PlzConfig {
        extends: None,
        taskgroup: groups(vec![("g", group(None, vec![("b", b)]))]),
        tasks: tasks(vec![("a", a)]),
    };
    match raw.resolve().unwrap_err() {
        ConfigError::InvalidGitHook { group, task, hook } => {
            assert_eq!(group, None);
            assert_eq!(task, "a");
            assert_eq!(hook, "nope");
        }
    }
}

#[test]
fn every_known_git_hook_is_accepted() {
    for name in plzplz::config::valid_git_hooks() {
        assert!(plzplz::config::is_valid_git_hook(name));
    }
    assert_eq!(plzplz::config::valid_git_hooks().len(), 19);
    assert!(!plzplz::config::is_valid_git_hook("pre-commit "));
    assert!(!plzplz::config::is_valid_git_hook(""));
}

#[test]
fn parse_taskgroups_only_no_tasks() {
    let raw = PlzConfig {
        extends: None,
        taskgroup: groups(vec![(
            "rust",
            group(None, vec![("test", task("cargo test")), ("build", task("cargo build"))]),
        )]),
        tasks: tasks(vec![]),
    };
    let cfg = raw.resolve().unwrap();
    assert!(cfg.tasks.is_empty());
    assert_eq!(cfg.get_group("rust").unwrap().tasks.len(), 2);
    assert!(cfg.get_group_task("rust", "test").is_some());
    assert!(cfg.get_group_task("rust", "build").is_some());
}

#[test]
fn get_group_returns_none_for_missing() {
    let raw = PlzConfig {
        extends: None,
        taskgroup: None,
        tasks: tasks(vec![("hello", task("echo hello"))]),
    };
    let cfg = raw.resolve().unwrap();
    assert!(cfg.get_group("nonexistent").is_none());
    assert!(cfg.get_group_task("nonexistent", "test").is_none());
}

#[test]
fn name_map_keeps_order_and_replaces() {
    let mut map: NameMap<Task> = NameMap::new();
    assert!(map.is_empty());
    assert!(map.insert("b".to_string(), task("1")).is_none());
    assert!(map.insert("a".to_string(), task("2")).is_none());
    let old = map.insert("b".to_string(), task("3")).unwrap();
    assert_eq!(old.run.as_deref(), Some("1"));
    assert_eq!(map.len(), 2);
    assert_eq!(map.entry(0).unwrap().0, "b");
    assert_eq!(map.entry(1).unwrap().0, "a");
    assert_eq!(map.entry(0).unwrap().1.run.as_deref(), Some("3"));
    assert!(map.entry(2).is_none());
    assert_eq!(map.position("a"), Some(1));
    assert_eq!(map.position("c"), None);
    assert!(map.contains_key("a"));
    assert!(!map.contains_key("A"));
    assert_eq!(map.get("b").unwrap().run.as_deref(), Some("3"));
    assert_eq!(map.get("a").unwrap().run.as_deref(), Some("2"));
    assert!(map.get("c").is_none());
}
