use plzplz::config::{FailHook, GlobalSettings, PlzConfig, Task, TaskGroup};
use plzplz::engine::{Event, Notice, Question, Request, Run};
use plzplz::names::NameMap;
use plzplz::runner::{
    parse_task_ref, resolve_task_ref, run_group_task, run_group_task_with_args, run_task,
    run_task_with_args, wrap, RunError, TaskRef,
};

const BASE: &str = "/work";

fn task(run: &str) -> Task {
    Task {
        run: if run.is_empty() { None } else { Some(run.to_string()) },
        run_serial: None,
        run_parallel: None,
        tool_env: None,
        dir: None,
        fail_hook: None,
        description: None,
        git_hook: None,
    }
}

fn serial(cmds: &[&str]) -> Task {
    let mut t = task("");
    t.run_serial = Some(cmds.iter().map(|c| c.to_string()).collect());
    t
}

fn parallel(cmds: &[&str]) -> Task {
    let mut t = task("");
    t.run_parallel = Some(cmds.iter().map(|c| c.to_string()).collect());
    t
}

fn hooked(mut t: Task, hook: FailHook) -> Task {
    t.fail_hook = Some(hook);
    t
}

fn suggest(cmd: &str) -> FailHook {
    FailHook::Suggest { suggest_command: cmd.to_string() }
}

fn config(entries: Vec<(&str, Task)>) -> PlzConfig {
    grouped(entries, vec![])
}

fn grouped(entries: Vec<(&str, Task)>, groups: Vec<(&str, Vec<(&str, Task)>)>) -> PlzConfig {
    let mut tasks = NameMap::new();
    for (name, t) in entries {
        tasks.insert(name.to_string(), t);
    }
    let taskgroup = if groups.is_empty() {
        None
    } else {
        let mut map = NameMap::new();
        for (name, members) in groups {
            let mut inner = NameMap::new();
            for (n, t) in members {
                inner.insert(n.to_string(), t);
            }
            map.insert(name.to_string(), TaskGroup { extends: None, tasks: inner });
        }
        Some(map)
    };
    PlzConfig { extends: None, taskgroup, tasks }
}

/// A host that stands in for the shell and the user.
struct Sim {
    /// The files that commands have made, with their content where they have one.
    files: Vec<(String, String)>,
    /// Every command handed to the shell, with its directory, in order.
    ran: Vec<(String, String)>,
    /// What was asked for, in order: `sh`, `spawn`, `wait`, `ask`.
    trace: Vec<String>,
    /// The answers still to give.
    answers: Vec<bool>,
    /// The questions that were put.
    asked: Vec<String>,
    /// The notices that were told.
    told: Vec<String>,
    /// The exit codes of the commands that were started.
    started: Vec<Option<i32>>,
}

impl Sim {
    fn new() -> Sim {
        Sim {
            files: vec![],
            ran: vec![],
            trace: vec![],
            answers: vec![],
            asked: vec![],
            told: vec![],
            started: vec![],
        }
    }

    fn answering(answers: &[bool]) -> Sim {
        let mut s = Sim::new();
        s.answers = answers.to_vec();
        s
    }

    fn has_file(&self, file: &str) -> bool {
        self.files.iter().any(|(f, _)| f == file)
    }

    fn content(&self, file: &str) -> String {
        self.files.iter().find(|(f, _)| f == file).unwrap().1.clone()
    }

    fn commands(&self) -> Vec<&str> {
        self.ran.iter().map(|(c, _)| c.as_str()).collect()
    }

    fn sh(&mut self, command: &str, dir: &str) -> Option<i32> {
        self.ran.push((command.to_string(), dir.to_string()));
        let words: Vec<&str> = command.split_whitespace().collect();
        match words.as_slice() {
            ["true"] => Some(0),
            ["false"] => Some(1),
            ["exit", n] => Some(n.parse().unwrap()),
            ["killed"] => None,
            ["touch", f] => {
                self.files.push((f.to_string(), String::new()));
                Some(0)
            }
            ["pwd", ">", f] => {
                self.files.push((f.to_string(), format!("{dir}\n")));
                Some(0)
            }
            ["echo", ">", f, ..] => {
                self.files.push((f.to_string(), String::new()));
                Some(0)
            }
            ["echo", ..] => Some(0),
            _ => Some(127),
        }
    }
}

fn drive(run: &mut Run, sim: &mut Sim) -> Result<(), RunError> {
    let mut event = Event::Resume;
    let mut steps = 0;
    loop {
        steps += 1;
        assert!(steps < 10_000, "the run does not end");
        let step = run.step(event);
        for notice in &step.notices {
            sim.told.push(notice.text());
        }
        event = match step.request {
            Request::Shell { command, dir } => {
                sim.trace.push(format!("sh {command}"));
                Event::Exited { code: sim.sh(&command, &dir) }
            }
            Request::Spawn { command, dir } => {
                sim.trace.push(format!("spawn {command}"));
                let code = sim.sh(&command, &dir);
                sim.started.push(code);
                Event::Started { id: (sim.started.len() - 1) as u64 }
            }
            Request::Wait { id } => {
                sim.trace.push(format!("wait {id}"));
                Event::Exited { code: sim.started[id as usize] }
            }
            Request::Confirm(question) => {
                sim.trace.push("ask".to_string());
                sim.asked.push(question.text());
                if sim.answers.is_empty() {
                    Event::Failed("no terminal".to_string())
                } else {
                    Event::Answer(sim.answers.remove(0))
                }
            }
            Request::Proceed => Event::Resume,
            Request::Done(result) => {
                assert!(run.is_over());
                return result;
            }
        };
    }
}

fn run_top(cfg: &PlzConfig, name: &str, interactive: bool, sim: &mut Sim) -> Result<(), RunError> {
    let mut run = run_task(cfg, name, BASE, interactive)?;
    drive(&mut run, sim)
}

fn text(e: RunError) -> String {
    e.message()
}

fn run_stage(cfg: &PlzConfig, stage: &str, sim: &mut Sim) -> Result<(), RunError> {
    for name in plzplz::hooks::tasks_for_stage(cfg, stage) {
        let mut run = match name.split_once(':') {
            Some((group, task)) => run_group_task(cfg, group, task, BASE, false)?,
            None => run_task(cfg, &name, BASE, false)?,
        };
        drive(&mut run, sim)?;
    }
    Ok(())
}

fn on_stage(mut t: Task, stage: &str) -> Task {
    t.git_hook = Some(stage.to_string());
    t
}

#[test]
fn run_simple_command() {
    let cfg = config(vec![("hello", task("echo hello"))]);
    let mut sim = Sim::new();
    run_top(&cfg, "hello", false, &mut sim).unwrap();
    assert_eq!(sim.ran, vec![("echo hello".to_string(), BASE.to_string())]);
}

#[test]
fn run_failing_command() {
    let cfg = config(vec![("fail", task("false"))]);
    let mut sim = Sim::new();
    let err = run_top(&cfg, "fail", false, &mut sim).unwrap_err();
    assert_eq!(text(err), "Command failed with exit code 1: false");
}

#[test]
fn run_serial_commands() {
    let cfg = config(vec![("serial", serial(&["echo first", "touch /work/marker.txt"]))]);
    let mut sim = Sim::new();
    run_top(&cfg, "serial", false, &mut sim).unwrap();
    assert!(sim.has_file("/work/marker.txt"));
    assert_eq!(sim.commands(), vec!["echo first", "touch /work/marker.txt"]);
}

#[test]
fn run_serial_stops_on_failure() {
    let cfg = config(vec![("serial", serial(&["false", "touch /work/should_not_exist.txt"]))]);
    let mut sim = Sim::new();
    assert!(run_top(&cfg, "serial", false, &mut sim).is_err());
    assert!(!sim.has_file("/work/should_not_exist.txt"));
    assert_eq!(sim.commands(), vec!["false"]);
}

#[test]
fn run_parallel_commands() {
    let cfg = config(vec![("par", parallel(&["touch /work/p1.txt", "touch /work/p2.txt"]))]);
    let mut sim = Sim::new();
    run_top(&cfg, "par", false, &mut sim).unwrap();
    assert!(sim.has_file("/work/p1.txt"));
    assert!(sim.has_file("/work/p2.txt"));
    assert_eq!(
        sim.trace,
        vec!["spawn touch /work/p1.txt", "spawn touch /work/p2.txt", "wait 0", "wait 1"]
    );
}

#[test]
fn run_parallel_fails_on_error() {
    let cfg = config(vec![("par", parallel(&["true", "false"]))]);
    let mut sim = Sim::new();
    let err = run_top(&cfg, "par", false, &mut sim).unwrap_err();
    assert_eq!(text(err), "One or more tasks failed");
    assert_eq!(
        sim.told,
        vec![
            "\nRan 2 tasks: \x1b[32m✓ true\x1b[0m  \x1b[31m✗ false\x1b[0m",
            "\n\x1b[31mTask failed:\x1b[0m false: Command failed with exit code 1: false",
        ]
    );
}

#[test]
fn run_with_working_dir() {
    let mut t = task("pwd > /work/pwd_out.txt");
    t.dir = Some("mysubdir".to_string());
    let cfg = config(vec![("wd", t)]);
    let mut sim = Sim::new();
    run_top(&cfg, "wd", false, &mut sim).unwrap();
    let content = sim.content("/work/pwd_out.txt");
    assert!(content.trim().ends_with("mysubdir"));
    assert_eq!(content, "/work/mysubdir\n");
}

#[test]
fn absolute_task_dir_replaces_the_base() {
    let mut t = task("pwd > /work/out.txt");
    t.dir = Some("/elsewhere".to_string());
    let cfg = config(vec![("wd", t)]);
    let mut sim = Sim::new();
    run_top(&cfg, "wd", false, &mut sim).unwrap();
    assert_eq!(sim.content("/work/out.txt"), "/elsewhere\n");
}

#[test]
fn run_with_tool_env_uv() {
    let mut t = task("echo hello");
    t.tool_env = Some("uv".to_string());
    let cfg = config(vec![("uv_test", t)]);
    assert_eq!(cfg.tasks.get("uv_test").unwrap().tool_env.as_deref(), Some("uv"));
    let mut sim = Sim::new();
    let _ = run_top(&cfg, "uv_test", false, &mut sim);
    assert_eq!(sim.commands(), vec!["uv run echo hello"]);
}

#[test]
fn run_with_tool_env_pnpm() {
    let mut t = task("echo hello");
    t.tool_env = Some("pnpm".to_string());
    let cfg = config(vec![("pnpm_test", t)]);
    assert_eq!(cfg.tasks.get("pnpm_test").unwrap().tool_env.as_deref(), Some("pnpm"));
    let mut sim = Sim::new();
    let _ = run_top(&cfg, "pnpm_test", false, &mut sim);
    assert_eq!(sim.commands(), vec!["pnpm exec echo hello"]);
}

#[test]
fn run_with_tool_env_npm() {
    let mut t = task("echo hello");
    t.tool_env = Some("npm".to_string());
    let cfg = config(vec![("npm_test", t)]);
    assert_eq!(cfg.tasks.get("npm_test").unwrap().tool_env.as_deref(), Some("npm"));
    let mut sim = Sim::new();
    let _ = run_top(&cfg, "npm_test", false, &mut sim);
    assert_eq!(sim.commands(), vec!["npx echo hello"]);
}

#[test]
fn run_task_reference() {
    let cfg = config(vec![
        ("caller", task("plz:target")),
        ("target", task("touch /work/ref_marker.txt")),
    ]);
    let mut sim = Sim::new();
    run_top(&cfg, "caller", false, &mut sim).unwrap();
    assert!(sim.has_file("/work/ref_marker.txt"));
}

#[test]
fn run_unknown_task_errors() {
    let cfg = config(vec![("hello", task("echo hello"))]);
    let err = run_task(&cfg, "nonexistent", BASE, false);
    assert!(err.is_err());
    let message = text(err.unwrap_err());
    assert!(message.contains("isn't a task"));
    assert_eq!(message, "\"nonexistent\" isn't a task. Run `plz` to see all commands.");
}

#[test]
fn run_serial_with_task_ref() {
    let cfg = config(vec![
        ("main", serial(&["touch /work/s1.txt", "plz:helper"])),
        ("helper", task("touch /work/s2.txt")),
    ]);
    let mut sim = Sim::new();
    run_top(&cfg, "main", false, &mut sim).unwrap();
    assert!(sim.has_file("/work/s1.txt"));
    assert!(sim.has_file("/work/s2.txt"));
}

#[test]
fn run_group_task_simple() {
    let cfg = grouped(
        vec![("hello", task("echo hello"))],
        vec![("rust", vec![("test", task("touch /work/group_marker.txt"))])],
    );
    let mut sim = Sim::new();
    let mut run = run_group_task(&cfg, "rust", "test", BASE, false).unwrap();
    drive(&mut run, &mut sim).unwrap();
    assert!(sim.has_file("/work/group_marker.txt"));
}

#[test]
fn run_group_task_with_dir() {
    let mut groups = NameMap::new();
    let mut members = NameMap::new();
    members.insert("wd".to_string(), task("pwd > /work/grp_pwd.txt"));
    groups.insert(
        "rust".to_string(),
        TaskGroup {
            extends: Some(GlobalSettings { tool_env: None, dir: Some("backend".to_string()) }),
            tasks: members,
        },
    );
    let mut tasks = NameMap::new();
    tasks.insert("hello".to_string(), task("echo hello"));
    let cfg = PlzConfig { extends: None, taskgroup: Some(groups), tasks }.resolve().unwrap();
    let mut sim = Sim::new();
    let mut run = run_group_task(&cfg, "rust", "wd", BASE, false).unwrap();
    drive(&mut run, &mut sim).unwrap();
    let content = sim.content("/work/grp_pwd.txt");
    assert!(content.trim().ends_with("backend"));
}

#[test]
fn run_group_task_unknown_errors() {
    let cfg = grouped(
        vec![("hello", task("echo hello"))],
        vec![("rust", vec![("test", task("cargo test"))])],
    );
    let err = run_group_task(&cfg, "rust", "nonexistent", BASE, false);
    assert!(err.is_err());
    let message = text(err.unwrap_err());
    assert!(message.contains("isn't a task"));
    assert_eq!(
        message,
        "\"rust:nonexistent\" isn't a task. Run `plz rust` to see group tasks."
    );
    assert!(run_group_task(&cfg, "python", "test", BASE, false).is_err());
}

#[test]
fn run_group_task_with_extra_args() {
    let cfg = grouped(
        vec![("hello", task("echo hello"))],
        vec![("rust", vec![("echo", task("echo > /work/args_out.txt"))])],
    );
    let args = vec!["--nocapture".to_string()];
    let mut sim = Sim::new();
    let mut run = run_group_task_with_args(&cfg, "rust", "echo", BASE, false, &args).unwrap();
    drive(&mut run, &mut sim).unwrap();
    assert!(sim.has_file("/work/args_out.txt"));
    assert_eq!(sim.commands(), vec!["echo > /work/args_out.txt --nocapture"]);
}

#[test]
fn run_group_task_ref_in_serial() {
    let cfg = grouped(
        vec![("main", serial(&["touch /work/gs1.txt", "plz:grp:helper"]))],
        vec![("grp", vec![("helper", task("touch /work/gs2.txt"))])],
    );
    let mut sim = Sim::new();
    run_top(&cfg, "main", false, &mut sim).unwrap();
    assert!(sim.has_file("/work/gs1.txt"));
    assert!(sim.has_file("/work/gs2.txt"));
}

#[test]
fn run_group_task_ref_in_parallel() {
    let cfg = grouped(
        vec![("main", parallel(&["touch /work/gp1.txt", "plz:grp:helper"]))],
        vec![("grp", vec![("helper", task("touch /work/gp2.txt"))])],
    );
    let mut sim = Sim::new();
    run_top(&cfg, "main", false, &mut sim).unwrap();
    assert!(sim.has_file("/work/gp1.txt"));
    assert!(sim.has_file("/work/gp2.txt"));
}

#[test]
fn run_parallel_with_task_ref() {
    let cfg = config(vec![
        ("main", parallel(&["touch /work/p1.txt", "plz:helper"])),
        ("helper", task("touch /work/p2.txt")),
    ]);
    let mut sim = Sim::new();
    run_top(&cfg, "main", false, &mut sim).unwrap();
    assert!(sim.has_file("/work/p1.txt"));
    assert!(sim.has_file("/work/p2.txt"));
}

#[test]
fn run_stage_executes_group_tasks() {
    let cfg = grouped(
        vec![("hello", task("echo hello"))],
        vec![("rust", vec![("check", on_stage(task("touch /work/group_hook_ran.txt"), "pre-commit"))])],
    );
    let mut sim = Sim::new();
    run_stage(&cfg, "pre-commit", &mut sim).unwrap();
    assert!(sim.has_file("/work/group_hook_ran.txt"));
}

#[test]
fn run_stage_executes_tasks() {
    let cfg = config(vec![("check", on_stage(task("touch /work/hook_ran.txt"), "pre-commit"))]);
    let mut sim = Sim::new();
    run_stage(&cfg, "pre-commit", &mut sim).unwrap();
    assert!(sim.has_file("/work/hook_ran.txt"));
}

#[test]
fn a_stage_stops_at_its_first_failing_task() {
    let cfg = config(vec![
        ("a", on_stage(task("false"), "pre-push")),
        ("b", on_stage(task("touch /work/b"), "pre-push")),
    ]);
    let mut sim = Sim::new();
    assert!(run_stage(&cfg, "pre-push", &mut sim).is_err());
    assert!(!sim.has_file("/work/b"));
}

#[test]
fn parallel_starts_every_command_before_it_runs_a_reference() {
    let cfg = config(vec![
        ("main", parallel(&["echo a", "plz:helper", "echo b", "plz:other"])),
        ("helper", task("echo helper")),
        ("other", task("echo other")),
    ]);
    let mut sim = Sim::new();
    run_top(&cfg, "main", false, &mut sim).unwrap();
    assert_eq!(
        sim.trace,
        vec!["spawn echo a", "spawn echo b", "sh echo helper", "sh echo other", "wait 0", "wait 1"]
    );
}

#[test]
fn phases_run_in_order_single_serial_parallel() {
    let mut t = task("echo one");
    t.run_serial = Some(vec!["echo two".to_string(), "echo three".to_string()]);
    t.run_parallel = Some(vec!["echo four".to_string()]);
    let cfg = config(vec![("all", t)]);
    let mut sim = Sim::new();
    run_top(&cfg, "all", false, &mut sim).unwrap();
    assert_eq!(
        sim.trace,
        vec!["sh echo one", "sh echo two", "sh echo three", "spawn echo four", "wait 0"]
    );
}

#[test]
fn failing_single_command_skips_the_lists() {
    let mut t = task("exit 3");
    t.run_serial = Some(vec!["echo two".to_string()]);
    t.run_parallel = Some(vec!["echo four".to_string()]);
    let cfg = config(vec![("all", t)]);
    let mut sim = Sim::new();
    let err = run_top(&cfg, "all", false, &mut sim).unwrap_err();
    assert_eq!(text(err), "Command failed with exit code 3: exit 3");
    assert_eq!(sim.trace, vec!["sh exit 3"]);
}

#[test]
fn command_ended_by_a_signal_reports_minus_one() {
    let cfg = config(vec![("k", task("killed"))]);
    let mut sim = Sim::new();
    let err = run_top(&cfg, "k", false, &mut sim).unwrap_err();
    assert_eq!(text(err), "Command failed with exit code -1: killed");
}

#[test]
fn extra_args_are_quoted_for_the_shell() {
    let cfg = config(vec![("t", task("echo"))]);
    let args = vec!["a b".to_string(), "plain".to_string(), "".to_string(), "it's".to_string()];
    let mut sim = Sim::new();
    let mut run = run_task_with_args(&cfg, "t", BASE, false, &args).unwrap();
    drive(&mut run, &mut sim).unwrap();
    assert_eq!(sim.commands(), vec!["echo 'a b' plain '' \"it's\""]);
}

#[test]
fn extra_args_with_nul_cannot_be_quoted() {
    let cfg = config(vec![("t", hooked(task("echo"), FailHook::Message("careful".to_string())))]);
    let args = vec!["a\0b".to_string()];
    let mut sim = Sim::new();
    let mut run = run_task_with_args(&cfg, "t", BASE, false, &args).unwrap();
    let err = drive(&mut run, &mut sim).unwrap_err();
    assert!(matches!(err, RunError::Unquotable));
    assert_eq!(
        text(err),
        "Failed to escape arguments: cannot shell-quote string containing nul byte"
    );
    assert!(sim.ran.is_empty());
    assert_eq!(sim.told.len(), 2);
    assert_eq!(sim.told[1], "⚠️  careful");
}

#[test]
fn reference_to_a_missing_task_fails_the_caller() {
    let cfg = config(vec![("caller", task("plz:ghost")), ("other", task("plz:g:ghost"))]);
    let mut sim = Sim::new();
    let err = run_top(&cfg, "caller", false, &mut sim).unwrap_err();
    assert_eq!(text(err), "\"ghost\" isn't a task. Run `plz` to see all commands.");
    let err = run_top(&cfg, "other", false, &mut sim).unwrap_err();
    assert_eq!(text(err), "\"g:ghost\" isn't a task. Run `plz g` to see group tasks.");
}

#[test]
fn suggestion_confirmed_and_successful_resolves_the_failure() {
    let cfg = config(vec![("t", hooked(task("false"), suggest("touch /work/F")))]);
    let mut sim = Sim::answering(&[true]);
    run_top(&cfg, "t", true, &mut sim).unwrap();
    assert!(sim.has_file("/work/F"));
    assert_eq!(sim.asked, vec!["Run `touch /work/F`?"]);
    assert_eq!(
        sim.told,
        vec!["\n\x1b[31mTask failed:\x1b[0m Command failed with exit code 1: false"]
    );
}

#[test]
fn suggestion_declined_leaves_the_failure() {
    let cfg = config(vec![("t", hooked(task("false"), suggest("touch /work/F")))]);
    let mut sim = Sim::answering(&[false]);
    let err = run_top(&cfg, "t", true, &mut sim).unwrap_err();
    assert_eq!(text(err), "Command failed with exit code 1: false");
    assert!(!sim.has_file("/work/F"));
}

#[test]
fn suggestion_that_fails_leaves_the_failure() {
    let cfg = config(vec![("t", hooked(task("exit 2"), suggest("exit 5")))]);
    let mut sim = Sim::answering(&[true]);
    let err = run_top(&cfg, "t", true, &mut sim).unwrap_err();
    assert_eq!(text(err), "Command failed with exit code 2: exit 2");
    assert_eq!(sim.commands(), vec!["exit 2", "exit 5"]);
    assert_eq!(sim.told.last().unwrap(), "\x1b[31mFix command failed.\x1b[0m");
}

#[test]
fn suggestion_is_only_told_where_nobody_can_be_asked() {
    let mut t = hooked(task("false"), suggest("fmt"));
    t.tool_env = Some("uvx".to_string());
    let cfg = config(vec![("t", t)]);
    let mut sim = Sim::new();
    let err = run_top(&cfg, "t", false, &mut sim).unwrap_err();
    assert_eq!(text(err), "Command failed with exit code 127: uvx false");
    assert!(sim.asked.is_empty());
    assert_eq!(
        sim.told,
        vec![
            "\n\x1b[31mTask failed:\x1b[0m Command failed with exit code 127: uvx false",
            "\x1b[33mSuggestion:\x1b[0m try running \x1b[1muvx fmt\x1b[0m",
        ]
    );
}

#[test]
fn unanswered_question_counts_as_no() {
    let cfg = config(vec![("t", hooked(task("false"), suggest("touch /work/F")))]);
    let mut sim = Sim::new();
    assert!(run_top(&cfg, "t", true, &mut sim).is_err());
    assert_eq!(sim.asked.len(), 1);
    assert!(!sim.has_file("/work/F"));
}

#[test]
fn command_hook_runs_and_never_resolves() {
    let mut t = hooked(task("false"), FailHook::Command("touch /work/H".to_string()));
    t.dir = Some("sub".to_string());
    let cfg = config(vec![("t", t)]);
    let mut sim = Sim::new();
    let err = run_top(&cfg, "t", false, &mut sim).unwrap_err();
    assert_eq!(text(err), "Command failed with exit code 1: false");
    assert!(sim.has_file("/work/H"));
    assert_eq!(
        sim.ran,
        vec![
            ("false".to_string(), "/work/sub".to_string()),
            ("touch /work/H".to_string(), "/work/sub".to_string()),
        ]
    );
    assert_eq!(sim.told[1], "Running fail hook: touch /work/H");
}

#[test]
fn message_hook_is_told() {
    let cfg = config(vec![("t", hooked(task("false"), FailHook::Message("Check the logs".to_string())))]);
    let mut sim = Sim::new();
    assert!(run_top(&cfg, "t", true, &mut sim).is_err());
    assert_eq!(sim.told[1], "⚠️  Check the logs");
    assert_eq!(sim.commands(), vec!["false"]);
}

#[test]
fn referenced_task_in_a_list_runs_without_its_own_hook_at_first() {
    let cfg = config(vec![
        ("main", serial(&["plz:a", "plz:b", "echo after"])),
        ("a", hooked(task("false"), FailHook::Command("echo mend a".to_string()))),
        ("b", task("echo b")),
    ]);
    let mut sim = Sim::new();
    let err = run_top(&cfg, "main", false, &mut sim).unwrap_err();
    assert_eq!(text(err), "One or more tasks failed");
    assert_eq!(sim.commands(), vec!["false", "echo b", "echo after", "echo mend a"]);
    assert_eq!(sim.told[0], "\nRan 2 tasks: \x1b[31m✗ a\x1b[0m  \x1b[32m✓ b\x1b[0m");
}

#[test]
fn two_resolved_failures_still_fail_the_block() {
    let cfg = config(vec![
        ("main", serial(&["plz:a", "plz:b"])),
        ("a", hooked(task("false"), suggest("touch /work/A"))),
        ("b", hooked(task("exit 4"), suggest("touch /work/B"))),
    ]);
    let mut sim = Sim::answering(&[true, true]);
    let err = run_top(&cfg, "main", true, &mut sim).unwrap_err();
    assert!(matches!(err, RunError::AggregatedFailure));
    assert!(sim.has_file("/work/A"));
    assert!(sim.has_file("/work/B"));
    assert_eq!(sim.asked, vec!["Run `touch /work/A`?", "Run `touch /work/B`?"]);
}

#[test]
fn unresolved_failure_asks_whether_to_go_on() {
    let cfg = config(vec![
        ("main", parallel(&["plz:a", "plz:b", "plz:c"])),
        ("a", task("false")),
        ("b", task("false")),
        ("c", task("false")),
    ]);
    let mut sim = Sim::answering(&[true, false]);
    let err = run_top(&cfg, "main", true, &mut sim).unwrap_err();
    assert!(matches!(err, RunError::Aborted));
    assert_eq!(text(err), "Aborted");
    assert_eq!(sim.asked, vec!["Continue to next task?", "Continue to next task?"]);
    assert_eq!(sim.told.len(), 3);
    assert_eq!(
        sim.told[2],
        "\n\x1b[31mTask failed:\x1b[0m b: Command failed with exit code 1: false"
    );
}

#[test]
fn summary_counts_the_plain_commands_of_a_serial_list() {
    let cfg = config(vec![("main", serial(&["echo first", "plz:bad"])), ("bad", task("false"))]);
    let mut sim = Sim::new();
    let err = run_top(&cfg, "main", false, &mut sim).unwrap_err();
    assert!(matches!(err, RunError::AggregatedFailure));
    assert_eq!(sim.commands(), vec!["echo first", "false"]);
    assert_eq!(
        sim.told,
        vec![
            "\nRan 1 tasks: \x1b[31m✗ bad\x1b[0m",
            "\n\x1b[31mTask failed:\x1b[0m bad: Command failed with exit code 1: false",
        ]
    );
}

#[test]
fn a_parallel_block_of_one_reference_tells_no_summary() {
    let cfg = config(vec![("main", parallel(&["plz:bad"])), ("bad", task("false"))]);
    let mut sim = Sim::new();
    assert!(run_top(&cfg, "main", false, &mut sim).is_err());
    assert_eq!(
        sim.told,
        vec!["\n\x1b[31mTask failed:\x1b[0m bad: Command failed with exit code 1: false"]
    );
}

#[test]
fn last_failure_is_not_followed_by_a_question() {
    let cfg = config(vec![("main", serial(&["plz:a"])), ("a", task("false"))]);
    let mut sim = Sim::new();
    let err = run_top(&cfg, "main", true, &mut sim).unwrap_err();
    assert!(matches!(err, RunError::AggregatedFailure));
    assert!(sim.asked.is_empty());
    assert_eq!(
        sim.told,
        vec!["\n\x1b[31mTask failed:\x1b[0m a: Command failed with exit code 1: false"]
    );
}

#[test]
fn failure_of_a_group_task_finds_its_hook_by_display_name() {
    let cfg = grouped(
        vec![("main", serial(&["plz:g:t", "plz:nowhere"]))],
        vec![("g", vec![("t", hooked(task("false"), FailHook::Message("group hook".to_string())))])],
    );
    let mut sim = Sim::new();
    assert!(run_top(&cfg, "main", false, &mut sim).is_err());
    assert_eq!(sim.told[0], "\nRan 2 tasks: \x1b[31m✗ g:t\x1b[0m  \x1b[31m✗ nowhere\x1b[0m");
    assert_eq!(sim.told[2], "⚠️  group hook");
    assert_eq!(
        sim.told[3],
        "\n\x1b[31mTask failed:\x1b[0m nowhere: \"nowhere\" isn't a task. Run `plz` to see all commands."
    );
}

#[test]
fn own_hook_answers_for_a_failed_block() {
    let cfg = config(vec![
        ("main", hooked(serial(&["plz:a"]), suggest("touch /work/mended"))),
        ("a", task("false")),
    ]);
    let mut sim = Sim::answering(&[true]);
    run_top(&cfg, "main", true, &mut sim).unwrap();
    assert!(sim.has_file("/work/mended"));
    assert_eq!(sim.told[1], "\n\x1b[31mTask failed:\x1b[0m One or more tasks failed");
}

#[test]
fn a_host_failure_ends_the_phases() {
    let cfg = config(vec![("t", parallel(&["echo a", "echo b"]))]);
    let mut run = run_task(&cfg, "t", BASE, false).unwrap();
    let mut event = Event::Resume;
    let mut spawned = 0;
    let result = loop {
        let step = run.step(event);
        event = match step.request {
            Request::Spawn { .. } => {
                spawned += 1;
                Event::Failed("out of processes".to_string())
            }
            Request::Done(r) => break r,
            Request::Proceed => Event::Resume,
            other => panic!("unexpected request {other:?}"),
        };
    };
    assert_eq!(spawned, 1);
    assert_eq!(text(result.unwrap_err()), "out of processes");
}

#[test]
fn an_answer_of_the_wrong_kind_is_a_failure() {
    let cfg = config(vec![("t", task("echo a"))]);
    let mut run = run_task(&cfg, "t", BASE, false).unwrap();
    let first = run.step(Event::Resume);
    assert!(matches!(first.request, Request::Shell { .. }));
    assert_eq!(first.request.echo().as_deref(), Some("→ echo a"));
    let second = run.step(Event::Answer(true));
    assert!(matches!(second.request, Request::Proceed));
    let mut sim = Sim::new();
    let err = drive(&mut run, &mut sim).unwrap_err();
    assert_eq!(text(err), "unexpected reply");
    let again = run.step(Event::Resume);
    assert!(matches!(again.request, Request::Done(Err(RunError::Io(_)))));
}

#[test]
fn a_run_that_is_over_stays_over() {
    let cfg = config(vec![("t", task("true"))]);
    let mut run = run_task(&cfg, "t", BASE, false).unwrap();
    assert!(!run.is_over());
    let mut sim = Sim::new();
    drive(&mut run, &mut sim).unwrap();
    assert!(run.is_over());
    assert!(matches!(run.step(Event::Resume).request, Request::Done(Ok(()))));
    assert!(matches!(run.step(Event::Answer(false)).request, Request::Done(Ok(()))));
}

#[test]
fn requests_announce_their_commands() {
    let shell = Request::Shell { command: "make".to_string(), dir: BASE.to_string() };
    let spawn = Request::Spawn { command: "make".to_string(), dir: BASE.to_string() };
    assert_eq!(shell.echo().as_deref(), Some("→ make"));
    assert_eq!(spawn.echo().as_deref(), Some("→ make &"));
    assert_eq!(Request::Proceed.echo(), None);
    assert_eq!(Request::Wait { id: 3 }.echo(), None);
    assert_eq!(Question::ContinueNext.text(), "Continue to next task?");
    assert_eq!(Notice::Summary(vec![]).text(), "\nRan 0 tasks: ");
}

#[test]
fn parse_task_ref_reads_both_forms() {
    assert!(parse_task_ref("echo plz:x").is_none());
    assert!(parse_task_ref("plz").is_none());
    assert!(parse_task_ref("PLZ:x").is_none());
    match parse_task_ref("plz:build") {
        Some(TaskRef::TopLevel(n)) => assert_eq!(n, "build"),
        other => panic!("{other:?}"),
    }
    match parse_task_ref("plz:rust:test") {
        Some(TaskRef::Group(g, t)) => {
            assert_eq!(g, "rust");
            assert_eq!(t, "test");
        }
        other => panic!("{other:?}"),
    }
    match parse_task_ref("plz:a:b:c") {
        Some(TaskRef::Group(g, t)) => {
            assert_eq!(g, "a");
            assert_eq!(t, "b:c");
        }
        other => panic!("{other:?}"),
    }
    match parse_task_ref("plz:") {
        Some(TaskRef::TopLevel(n)) => assert_eq!(n, ""),
        other => panic!("{other:?}"),
    }
    assert_eq!(TaskRef::Group("g".to_string(), "t".to_string()).display(), "g:t");
    assert_eq!(TaskRef::TopLevel("t".to_string()).display(), "t");
}

#[test]
fn resolve_task_ref_looks_in_the_right_namespace() {
    let cfg = grouped(
        vec![("build", task("top"))],
        vec![("rust", vec![("build", task("inner"))])],
    );
    let (t, name) = resolve_task_ref(&cfg, &TaskRef::TopLevel("build".to_string())).unwrap();
    assert_eq!(t.run.as_deref(), Some("top"));
    assert_eq!(name, "build");
    let r = TaskRef::Group("rust".to_string(), "build".to_string());
    let (t, name) = resolve_task_ref(&cfg, &r).unwrap();
    assert_eq!(t.run.as_deref(), Some("inner"));
    assert_eq!(name, "rust:build");
    assert!(resolve_task_ref(&cfg, &TaskRef::TopLevel("rust".to_string())).is_err());
}

#[test]
fn wrap_does_not_wrap_twice() {
    assert_eq!(wrap(Some("pnpm"), "pnpm exec vite"), "pnpm exec vite");
    assert_eq!(wrap(Some("pnpm"), "vite"), "pnpm exec vite");
    assert_eq!(wrap(Some("pnpm"), "npx vite"), "npx vite");
    assert_eq!(wrap(Some("pnpm"), "pnpmx"), "pnpm exec pnpmx");
    assert_eq!(wrap(Some("npm"), "vite"), "npx vite");
    assert_eq!(wrap(Some("npm"), "npm run x"), "npm run x");
    assert_eq!(wrap(Some("uv"), "pytest"), "uv run pytest");
    assert_eq!(wrap(Some("uv"), "uv sync"), "uv sync");
    assert_eq!(wrap(Some("uv"), "uvx ruff"), "uvx ruff");
    assert_eq!(wrap(Some("uvx"), "ruff"), "uvx ruff");
    assert_eq!(wrap(Some("uvx"), "uv run x"), "uvx uv run x");
    assert_eq!(wrap(Some("cargo"), "test"), "test");
    assert_eq!(wrap(None, "test"), "test");
    for env in ["uv", "uvx", "pnpm", "npm", "other"] {
        for cmd in ["x", "uv x", "uvx x", "pnpm x", "npx x", "npm x", ""] {
            let once = wrap(Some(env), cmd);
            assert_eq!(wrap(Some(env), &once), once);
        }
    }
}

#[test]
fn a_reference_cycle_is_entered_again_and_again() {
    let cfg = config(vec![("a", task("plz:b")), ("b", serial(&["echo b", "plz:a"]))]);
    let mut run = run_task(&cfg, "a", BASE, false).unwrap();
    let mut echoes = 0;
    let mut event = Event::Resume;
    for _ in 0..2_000 {
        let step = run.step(event);
        event = match step.request {
            Request::Proceed => Event::Resume,
            Request::Shell { command, .. } => {
                assert_eq!(command, "echo b");
                echoes += 1;
                Event::Exited { code: Some(0) }
            }
            other => panic!("unexpected request {other:?}"),
        };
    }
    assert!(!run.is_over());
    assert!(echoes > 100);
}

#[test]
fn a_run_without_references_ends_whatever_it_is_answered() {
    let mut t = hooked(task("a"), suggest("fix"));
    t.run_serial = Some(vec!["b".to_string(), "c".to_string()]);
    t.run_parallel = Some(vec!["d".to_string(), "e".to_string()]);
    let cfg = config(vec![("t", t)]);
    let answers = [
        Event::Resume,
        Event::Exited { code: Some(0) },
        Event::Exited { code: Some(1) },
        Event::Exited { code: None },
        Event::Started { id: 7 },
        Event::Answer(true),
        Event::Answer(false),
        Event::Failed("broken".to_string()),
    ];
    for first in 0..answers.len() {
        for stride in 1..answers.len() {
            let mut run = run_task(&cfg, "t", BASE, true).unwrap();
            let mut steps = 0;
            let mut at = first;
            loop {
                steps += 1;
                assert!(steps < 200, "the run does not end");
                let event = match &answers[at % answers.len()] {
                    Event::Resume => Event::Resume,
                    Event::Exited { code } => Event::Exited { code: *code },
                    Event::Started { id } => Event::Started { id: *id },
                    Event::Answer(b) => Event::Answer(*b),
                    Event::Failed(m) => Event::Failed(m.clone()),
                };
                at += stride;
                if let Request::Done(_) = run.step(event).request {
                    break;
                }
            }
        }
    }
}
