use plzplz::init::{
    add_suffix_to_toml, alternative_envs, append_task, cheatsheet, convert_to_taskgroup,
    initial_choice, rewrite_template, sort_templates, task_name_from, template_part,
};
use plzplz::names::NameMap;
use plzplz::templates::{arrange_templates, detect_environments, Environment, TemplateMeta};

fn names(n: &[&str]) -> Vec<(String, Option<String>)> {
    n.iter().map(|s| (s.to_string(), None)).collect()
}

fn list(n: &[&str]) -> Vec<String> {
    n.iter().map(|s| s.to_string()).collect()
}

fn environments() -> NameMap<Environment> {
    let mut map = NameMap::new();
    let mut add = |name: &str, patterns: &[&str], alternative_to: &[&str]| {
        map.insert(
            name.to_string(),
            Environment { patterns: list(patterns), alternative_to: list(alternative_to) },
        );
    };
    add("uv", &["uv.lock", "pyproject.toml"], &[]);
    add("rust", &["Cargo.toml"], &[]);
    add("pnpm", &["pnpm-lock.yaml"], &["npm"]);
    add("npm", &["package-lock.json", "package.json"], &[]);
    map
}

fn template(name: &str, env: Option<&str>, is_user: bool) -> TemplateMeta {
    TemplateMeta {
        name: name.to_string(),
        description: format!("{name} tasks"),
        env: env.map(|e| e.to_string()),
        content: format!("[template]\ndescription = \"{name}\"\n\n[tasks.x]\nrun = \"x\"\n"),
        is_user,
    }
}

#[test]
fn add_suffix_renames_tasks() {
    let toml = r#"
[tasks.dev]
run = "cargo run"

[tasks.build]
run = "cargo build"
"#;
    let result = add_suffix_to_toml(toml, "rust", &names(&["dev", "build"]));
    assert!(result.contains("[tasks.dev-rust]"));
    assert!(result.contains("[tasks.build-rust]"));
    assert!(!result.contains("[tasks.dev]"));
    assert!(!result.contains("[tasks.build]"));
    assert_eq!(
        result,
        "\n[tasks.dev-rust]\nrun = \"cargo run\"\n\n[tasks.build-rust]\nrun = \"cargo build\"\n"
    );
}

#[test]
fn add_suffix_updates_plz_references() {
    let toml = r#"
[tasks.lint]
run_serial = ["cargo clippy", "cargo fmt --check"]
fail_hook = { suggest_command = "plz fix" }

[tasks.fix]
run_serial = ["cargo fmt", "cargo clippy --fix --allow-dirty"]
"#;
    let result = add_suffix_to_toml(toml, "rust", &names(&["lint", "fix"]));
    assert!(result.contains("plz fix-rust"), "got:\n{result}");
    let pointers = add_suffix_to_toml("run = \"plz:fix\"\nx = \"plz:fixed\"", "r", &names(&["fix"]));
    assert_eq!(pointers, "run = \"plz:fix-r\"\nx = \"plz:fixed\"");
}

#[test]
fn convert_to_taskgroup_basic() {
    let toml = r#"
[tasks.dev]
run = "cargo run"

[tasks.build]
run = "cargo build"
"#;
    let result = convert_to_taskgroup(toml, "rust", &names(&["dev", "build"]), "rust");
    assert!(result.contains("[taskgroup.rust.dev]"));
    assert!(result.contains("[taskgroup.rust.build]"));
    assert!(!result.contains("[tasks.dev]"));
    assert!(!result.contains("[tasks.build]"));
    assert_eq!(
        result,
        "\n[taskgroup.rust.dev]\nrun = \"cargo run\"\n\n[taskgroup.rust.build]\nrun = \"cargo build\"\n"
    );
}

#[test]
fn convert_to_taskgroup_extracts_env() {
    let toml = r#"
[tasks.dev]
env = "pnpm"
run = "vite"

[tasks.build]
env = "pnpm"
run = "vite build"
"#;
    let result = convert_to_taskgroup(toml, "pnpm", &names(&["dev", "build"]), "pnpm");
    assert!(result.contains("[taskgroup.pnpm.extends]"), "missing extends: {result}");
    assert!(result.contains("env = \"pnpm\""), "missing env in extends: {result}");
    let env_count = result.matches("env = \"pnpm\"").count();
    assert_eq!(env_count, 1, "env should only appear in extends: {result}");
    assert_eq!(
        result,
        "[taskgroup.pnpm.extends]\nenv = \"pnpm\"\n\n[taskgroup.pnpm.dev]\nrun = \"vite\"\n\n[taskgroup.pnpm.build]\nrun = \"vite build\""
    );
}

#[test]
fn convert_to_taskgroup_updates_plz_references() {
    let toml = r#"
[tasks.lint]
run_serial = ["cargo clippy", "cargo fmt --check"]
fail_hook = { suggest_command = "plz fix" }

[tasks.fix]
run_serial = ["cargo fmt", "cargo clippy --fix --allow-dirty"]
"#;
    let result = convert_to_taskgroup(toml, "rust", &names(&["lint", "fix"]), "rust");
    assert!(result.contains("plz rust fix"), "should update plz references: {result}");
    let pointers = convert_to_taskgroup("run = \"plz:fix\"", "g", &names(&["fix"]), "");
    assert_eq!(pointers, "run = \"plz:g:fix\"");
}

#[test]
fn rewrite_template_renames_the_table() {
    assert_eq!(
        rewrite_template("# Build\n[tasks.build]\nrun = \"make\"", "compile"),
        "# Build\n[tasks.compile]\nrun = \"make\""
    );
    assert_eq!(rewrite_template("\n\n[tasks.a]\n\nrun = 1\n", "b"), "[tasks.b]\n\nrun = 1");
    assert_eq!(rewrite_template(" [tasks.a]", "b"), " [tasks.a]");
    assert_eq!(rewrite_template("", "b"), "");
}

#[test]
fn detect_environment_rust() {
    let detected = detect_environments(&environments(), &list(&["Cargo.toml"]));
    assert!(detected.contains(&"rust".to_string()));
}

#[test]
fn detect_environment_pnpm() {
    let detected = detect_environments(&environments(), &list(&["pnpm-lock.yaml"]));
    assert!(detected.contains(&"pnpm".to_string()));
}

#[test]
fn detect_environment_npm() {
    let detected = detect_environments(&environments(), &list(&["package-lock.json"]));
    assert!(detected.contains(&"npm".to_string()));
}

#[test]
fn detect_environment_npm_from_package_json() {
    let detected = detect_environments(&environments(), &list(&["package.json"]));
    assert!(detected.contains(&"npm".to_string()));
}

#[test]
fn detect_environment_uv() {
    let detected = detect_environments(&environments(), &list(&["uv.lock"]));
    assert!(detected.contains(&"uv".to_string()));
}

#[test]
fn detect_environment_multiple() {
    let detected = detect_environments(&environments(), &list(&["Cargo.toml", "pnpm-lock.yaml"]));
    assert!(detected.len() >= 2);
    assert!(detected.contains(&"rust".to_string()));
    assert!(detected.contains(&"pnpm".to_string()));
    assert_eq!(detected, vec!["pnpm", "rust"]);
}

#[test]
fn detect_environment_none() {
    let detected = detect_environments(&environments(), &vec![]);
    assert!(detected.is_empty());
    assert!(detect_environments(&environments(), &list(&["README.md"])).is_empty());
}

#[test]
fn pnpm_is_alternative_to_npm() {
    let envs = environments();
    assert_eq!(alternative_envs(&envs, &list(&["pnpm", "rust", "ghost"])), vec!["npm"]);
    assert!(alternative_envs(&envs, &list(&["npm"])).is_empty());
}

#[test]
fn user_template_listed_before_embedded_for_same_env() {
    let built_in = vec![
        ("pnpm".to_string(), Some(template("pnpm", Some("pnpm"), false))),
        ("rust".to_string(), Some(template("rust", Some("rust"), false))),
    ];
    let all = arrange_templates(Some(template("user", Some("rust"), true)), built_in);
    let names: Vec<&str> = all.iter().map(|t| t.name.as_str()).collect();
    let user_pos = names.iter().position(|n| *n == "user").unwrap();
    let rust_pos = names.iter().position(|n| *n == "rust").unwrap();
    assert!(user_pos < rust_pos, "user template should appear before embedded rust: {names:?}");
    assert!(all[user_pos].is_user);
    assert!(!all[rust_pos].is_user);
    assert_eq!(names, vec!["pnpm", "user", "rust"]);
}

#[test]
fn user_template_appended_when_env_not_in_embedded() {
    let built_in = vec![
        ("pnpm".to_string(), Some(template("pnpm", Some("pnpm"), false))),
        ("rust".to_string(), None),
    ];
    let all = arrange_templates(Some(template("user", Some("custom"), true)), built_in);
    let last = all.last().unwrap();
    assert_eq!(last.name, "user");
    assert_eq!(last.env.as_deref(), Some("custom"));
    assert!(last.is_user);
    assert_eq!(all.len(), 2);
}

#[test]
fn embedded_templates_not_marked_as_user() {
    let built_in = vec![
        ("pnpm".to_string(), Some(template("pnpm", Some("pnpm"), false))),
        ("rust".to_string(), Some(template("rust", Some("rust"), false))),
    ];
    let all = arrange_templates(None, built_in);
    assert_eq!(all.len(), 2);
    for t in &all {
        assert!(!t.is_user, "embedded template {} should not be user", t.name);
    }
}

#[test]
fn user_template_for_an_unreadable_built_in_still_comes_in_its_place() {
    let built_in = vec![
        ("rust".to_string(), None),
        ("uv".to_string(), Some(template("uv", Some("uv"), false))),
    ];
    let all = arrange_templates(Some(template("user", Some("rust"), true)), built_in);
    let names: Vec<&str> = all.iter().map(|t| t.name.as_str()).collect();
    assert_eq!(names, vec!["user", "uv"]);
}

#[test]
fn templates_are_sorted_by_rank() {
    let all = vec![
        template("general", None, false),
        template("npm", Some("npm"), false),
        template("pnpm", Some("pnpm"), false),
        template("user", Some("pnpm"), true),
        template("rust", Some("rust"), false),
    ];
    let found = list(&["pnpm", "npm"]);
    let alternatives = list(&["npm"]);
    let order = sort_templates(&all, &found, &alternatives);
    assert_eq!(order, vec![3, 1, 2, 0, 4]);
    assert_eq!(initial_choice(&all, &order, &found, &alternatives), Some(0));
    let order = sort_templates(&all, &list(&["npm"]), &vec![]);
    assert_eq!(order, vec![1, 0, 2, 3, 4]);
    let nothing = sort_templates(&all, &vec![], &list(&["rust"]));
    assert_eq!(nothing, vec![4, 0, 1, 2, 3]);
    assert_eq!(initial_choice(&all, &nothing, &vec![], &list(&["rust"])), Some(1));
    let one = all[1..2].to_vec();
    let only_alternative = sort_templates(&one, &list(&["npm"]), &list(&["npm"]));
    assert_eq!(only_alternative, vec![0]);
    assert_eq!(initial_choice(&one, &only_alternative, &list(&["npm"]), &list(&["npm"])), None);
    assert_eq!(initial_choice(&all, &vec![9, 4], &list(&["rust"]), &vec![]), Some(1));
}

#[test]
fn template_parts_end_with_an_empty_line() {
    let content = "[template]\ndescription = \"x\"\nenv = \"rust\"\n\n# Build\n[tasks.build]\nrun = \"cargo build\"\n\n";
    assert_eq!(template_part(content, None), "# Build\n[tasks.build]\nrun = \"cargo build\"\n\n");
    let tasks = names(&["build"]);
    assert_eq!(
        template_part(content, Some(("rust", &tasks, "rust"))),
        "# Build\n[taskgroup.rust.build]\nrun = \"cargo build\"\n\n"
    );
    assert_eq!(template_part("", None), "\n\n");
}

#[test]
fn task_names_are_trimmed() {
    assert_eq!(task_name_from(Some("  build \n")).as_deref(), Some("build"));
    assert_eq!(task_name_from(Some("a b")).as_deref(), Some("a b"));
    assert_eq!(task_name_from(Some("   ")), None);
    assert_eq!(task_name_from(Some("")), None);
    assert_eq!(task_name_from(None), None);
}

#[test]
fn tasks_are_appended_after_an_empty_line() {
    assert_eq!(append_task("[tasks.a]\nrun = 1\n", "[tasks.b]\nrun = 2"), "[tasks.a]\nrun = 1\n\n[tasks.b]\nrun = 2\n");
    assert_eq!(append_task("[tasks.a]", "x"), "[tasks.a]\n\nx\n");
    assert_eq!(append_task("", "x"), "\n\nx\n");
}

#[test]
fn cheatsheet_shows_every_feature() {
    let text = cheatsheet();
    assert!(text.starts_with("\x1b[1mplz.toml cheatsheet\x1b[0m\n\n\x1b[36mBasic task\x1b[0m\n[tasks.build]\nrun = \"cargo build\"\n\n"));
    assert!(text.contains("\x1b[36mEnvironment wrappers\x1b[0m  \x1b[2mpnpm | npm | uv | uvx\x1b[0m\n"));
    assert!(text.contains("\x1b[2m# show a message\x1b[0m\nfail_hook = { message = \"Check the logs\" }\n"));
    assert!(text.ends_with("[taskgroup.docs.dev]\nrun = \"pnpm docs:dev\"\n"));
    assert_eq!(text.matches("\x1b[36m").count(), 12);
    assert_eq!(text.lines().count(), 62);
}
