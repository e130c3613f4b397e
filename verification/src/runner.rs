//! Task references, tool environments and the failures of a run.

use crate::config::{PlzConfig, PlzConfigView, Task, TaskView};
use crate::engine::machine::Run;
use crate::engine::model::start;
use crate::text::{
    concat2, concat3, decimal, has_prefix, lemma_first_index_unique, opt_text, push_decimal,
    same_text, split_first, split_once, starts_with, strip_prefix, texts, without_prefix,
};
use vstd::prelude::*;

verus! {

/// A pointer to another task, written `plz:name` or `plz:group:name`.
#[derive(Debug)]
pub enum TaskRef {
    /// A top-level task.
    TopLevel(String),
    /// A task of a group: the group's name, then the task's.
    Group(String, String),
}

pub enum TaskRefView {
    TopLevel(Seq<char>),
    Group(Seq<char>, Seq<char>),
}

impl View for TaskRef {
    type V = TaskRefView;

    open spec fn view(&self) -> TaskRefView {
        match *self {
            TaskRef::TopLevel(n) => TaskRefView::TopLevel(n@),
            TaskRef::Group(g, t) => TaskRefView::Group(g@, t@),
        }
    }
}

impl Clone for TaskRef {
    fn clone(&self) -> (r: Self)
        ensures
            r@ == self@,
    {
        match self {
            TaskRef::TopLevel(n) => TaskRef::TopLevel(n.clone()),
            TaskRef::Group(g, t) => TaskRef::Group(g.clone(), t.clone()),
        }
    }
}

impl TaskRefView {
    /// The name under which the task is shown: `name`, or `group:name`.
    pub open spec fn display(self) -> Seq<char> {
        match self {
            TaskRefView::TopLevel(n) => n,
            TaskRefView::Group(g, t) => g + seq![':'] + t,
        }
    }

    /// The task that the reference points to in `config`, if there is one.
    pub open spec fn target(self, config: PlzConfigView) -> Option<TaskView> {
        match self {
            TaskRefView::TopLevel(n) => config.task(n),
            TaskRefView::Group(g, t) => config.group_task(g, t),
        }
    }
}

/// The reference that `cmd` spells: after `plz:` either a task's name, or a
/// group's name and a task's name with the first `:` between them. A
/// command that does not begin with `plz:` is no reference.
pub open spec fn parse_ref(cmd: Seq<char>) -> Option<TaskRefView> {
    match without_prefix(cmd, seq!['p', 'l', 'z', ':']) {
        Some(rest) => match split_first(rest, ':') {
            Some((group, task)) => Some(TaskRefView::Group(group, task)),
            None => Some(TaskRefView::TopLevel(rest)),
        },
        None => None,
    }
}

/// Reads `cmd` as a task reference.
pub fn parse_task_ref(cmd: &str) -> (r: Option<TaskRef>)
    ensures
        match r {
            Some(t) => parse_ref(cmd@) == Some(t@),
            None => parse_ref(cmd@) is None,
        },
{
    proof {
        reveal_strlit("plz:");
        assert("plz:"@ =~= seq!['p', 'l', 'z', ':']);
    }
    match strip_prefix(cmd, "plz:") {
        Some(rest) => match split_once(rest.as_str(), ':') {
            Some((group, task)) => Some(TaskRef::Group(group, task)),
            None => Some(TaskRef::TopLevel(rest)),
        },
        None => None,
    }
}

impl TaskRef {
    /// The name under which the task is shown: `name`, or `group:name`.
    pub fn display(&self) -> (r: String)
        ensures
            r@ == self@.display(),
    {
        proof {
            reveal_strlit(":");
            assert(":"@ =~= seq![':']);
        }
        match self {
            TaskRef::TopLevel(n) => n.clone(),
            TaskRef::Group(g, t) => concat3(g.as_str(), ":", t.as_str()),
        }
    }
}

/// Why a run ended without success.
#[derive(Debug)]
pub enum RunError {
    /// No task has this name; `group` is set where a group was searched.
    TaskNotFound { group: Option<String>, name: String },
    /// A command ended with a code other than zero (-1 stands for none).
    CommandFailure { exit_code: i32, command: String },
    /// One or more tasks of a serial or parallel block failed.
    AggregatedFailure,
    /// The user chose not to go on after a failure.
    Aborted,
    /// The extra arguments hold a nul character and cannot be quoted.
    Unquotable,
    /// A command could not be started or waited for.
    Io(String),
}

pub enum RunErrorView {
    TaskNotFound { group: Option<Seq<char>>, name: Seq<char> },
    CommandFailure { exit_code: i32, command: Seq<char> },
    AggregatedFailure,
    Aborted,
    Unquotable,
    Io(Seq<char>),
}

impl View for RunError {
    type V = RunErrorView;

    open spec fn view(&self) -> RunErrorView {
        match *self {
            RunError::TaskNotFound { group, name } => RunErrorView::TaskNotFound {
                group: opt_text(group),
                name: name@,
            },
            RunError::CommandFailure { exit_code, command } => RunErrorView::CommandFailure {
                exit_code,
                command: command@,
            },
            RunError::AggregatedFailure => RunErrorView::AggregatedFailure,
            RunError::Aborted => RunErrorView::Aborted,
            RunError::Unquotable => RunErrorView::Unquotable,
            RunError::Io(m) => RunErrorView::Io(m@),
        }
    }
}

impl Clone for RunError {
    fn clone(&self) -> (r: Self)
        ensures
            r@ == self@,
    {
        match self {
            RunError::TaskNotFound { group, name } => RunError::TaskNotFound {
                group: match group {
                    Some(g) => Some(g.clone()),
                    None => None,
                },
                name: name.clone(),
            },
            RunError::CommandFailure { exit_code, command } => RunError::CommandFailure {
                exit_code: *exit_code,
                command: command.clone(),
            },
            RunError::AggregatedFailure => RunError::AggregatedFailure,
            RunError::Aborted => RunError::Aborted,
            RunError::Unquotable => RunError::Unquotable,
            RunError::Io(m) => RunError::Io(m.clone()),
        }
    }
}

/// The view of an optional failure.
pub open spec fn opt_error(o: Option<RunError>) -> Option<RunErrorView> {
    match o {
        Some(e) => Some(e@),
        None => None,
    }
}

impl TaskRefView {
    /// The failure to report where the reference points to no task.
    pub open spec fn missing(self) -> RunErrorView {
        match self {
            TaskRefView::TopLevel(n) => RunErrorView::TaskNotFound { group: None, name: n },
            TaskRefView::Group(g, t) => RunErrorView::TaskNotFound { group: Some(g), name: t },
        }
    }
}

/// Looks up the task that `task_ref` points to and gives it with the name
/// under which it is shown.
pub fn resolve_task_ref<'a>(config: &'a PlzConfig, task_ref: &TaskRef) -> (r: Result<
    (&'a Task, String),
    RunError,
>)
    ensures
        match r {
            Ok((task, display)) => {
                &&& task_ref@.target(config@) == Some(task@)
                &&& display@ == task_ref@.display()
            },
            Err(e) => task_ref@.target(config@) is None && e@ == task_ref@.missing(),
        },
{
    match task_ref {
        TaskRef::TopLevel(name) => match config.get_task(name.as_str()) {
            Some(task) => Ok((task, task_ref.display())),
            None => Err(RunError::TaskNotFound { group: None, name: name.clone() }),
        },
        TaskRef::Group(group, name) => match config.get_group_task(group.as_str(), name.as_str()) {
            Some(task) => Ok((task, task_ref.display())),
            None => Err(
                RunError::TaskNotFound { group: Some(group.clone()), name: name.clone() },
            ),
        },
    }
}

/// `cmd` behind the invocation of the tool environment `env`: `uv run`,
/// `uvx`, `pnpm exec` or `npx`. A command that already begins with the
/// tool's own name, or with that of its companion, is left as it is, and
/// so is every command where `env` is none of `uv`, `uvx`, `pnpm`, `npm`.
pub open spec fn wrapped(env: Option<Seq<char>>, cmd: Seq<char>) -> Seq<char> {
    if env == Some("uv"@) && !has_prefix(cmd, "uv "@) && !has_prefix(cmd, "uvx "@) {
        "uv run "@ + cmd
    } else if env == Some("uvx"@) && !has_prefix(cmd, "uvx "@) {
        "uvx "@ + cmd
    } else if env == Some("pnpm"@) && !has_prefix(cmd, "pnpm "@) && !has_prefix(cmd, "npx "@) {
        "pnpm exec "@ + cmd
    } else if env == Some("npm"@) && !has_prefix(cmd, "npx "@) && !has_prefix(cmd, "npm "@) {
        "npx "@ + cmd
    } else {
        cmd
    }
}

/// Puts `cmd` behind the invocation of the tool environment `env`.
pub fn wrap(env: Option<&str>, cmd: &str) -> (r: String)
    ensures
        r@ == wrapped(
            match env {
                Some(e) => Some(e@),
                None => None,
            },
            cmd@,
        ),
{
    match env {
        Some(e) => {
            if same_text(e, "uv") && !starts_with(cmd, "uv ") && !starts_with(cmd, "uvx ") {
                concat2("uv run ", cmd)
            } else if same_text(e, "uvx") && !starts_with(cmd, "uvx ") {
                concat2("uvx ", cmd)
            } else if same_text(e, "pnpm") && !starts_with(cmd, "pnpm ") && !starts_with(
                cmd,
                "npx ",
            ) {
                concat2("pnpm exec ", cmd)
            } else if same_text(e, "npm") && !starts_with(cmd, "npx ") && !starts_with(
                cmd,
                "npm ",
            ) {
                concat2("npx ", cmd)
            } else {
                cmd.to_owned()
            }
        },
        None => cmd.to_owned(),
    }
}

/// The words that `wrapped` is made of, letter by letter.
proof fn lemma_tool_words()
    ensures
        "uv"@ == seq!['u', 'v'],
        "uvx"@ == seq!['u', 'v', 'x'],
        "pnpm"@ == seq!['p', 'n', 'p', 'm'],
        "npm"@ == seq!['n', 'p', 'm'],
        "uv "@ == seq!['u', 'v', ' '],
        "uvx "@ == seq!['u', 'v', 'x', ' '],
        "pnpm "@ == seq!['p', 'n', 'p', 'm', ' '],
        "npx "@ == seq!['n', 'p', 'x', ' '],
        "npm "@ == seq!['n', 'p', 'm', ' '],
        "uv run "@ == seq!['u', 'v', ' ', 'r', 'u', 'n', ' '],
        "pnpm exec "@ == seq!['p', 'n', 'p', 'm', ' ', 'e', 'x', 'e', 'c', ' '],
        "uv"@ != "uvx"@,
        "uv"@ != "pnpm"@,
        "uv"@ != "npm"@,
        "uvx"@ != "pnpm"@,
        "uvx"@ != "npm"@,
        "pnpm"@ != "npm"@,
{
    reveal_strlit("uv");
    reveal_strlit("uvx");
    reveal_strlit("pnpm");
    reveal_strlit("npm");
    reveal_strlit("uv ");
    reveal_strlit("uvx ");
    reveal_strlit("pnpm ");
    reveal_strlit("npx ");
    reveal_strlit("npm ");
    reveal_strlit("uv run ");
    reveal_strlit("pnpm exec ");
    assert("uv"@ =~= seq!['u', 'v']);
    assert("uvx"@ =~= seq!['u', 'v', 'x']);
    assert("pnpm"@ =~= seq!['p', 'n', 'p', 'm']);
    assert("npm"@ =~= seq!['n', 'p', 'm']);
    assert("uv "@ =~= seq!['u', 'v', ' ']);
    assert("uvx "@ =~= seq!['u', 'v', 'x', ' ']);
    assert("pnpm "@ =~= seq!['p', 'n', 'p', 'm', ' ']);
    assert("npx "@ =~= seq!['n', 'p', 'x', ' ']);
    assert("npm "@ =~= seq!['n', 'p', 'm', ' ']);
    assert("uv run "@ =~= seq!['u', 'v', ' ', 'r', 'u', 'n', ' ']);
    assert("pnpm exec "@ =~= seq!['p', 'n', 'p', 'm', ' ', 'e', 'x', 'e', 'c', ' ']);
    assert("uv"@.len() != "uvx"@.len());
    assert("uv"@.len() != "pnpm"@.len());
    assert("uv"@.len() != "npm"@.len());
    assert("uvx"@.len() != "pnpm"@.len());
    assert("uvx"@[0] != "npm"@[0]);
    assert("pnpm"@.len() != "npm"@.len());
}

/// A sequence that begins with `a + b` begins with `a`.
proof fn lemma_prefix_of_sum(s: Seq<char>, a: Seq<char>, b: Seq<char>)
    requires
        has_prefix(s, a + b),
    ensures
        has_prefix(s, a),
{
    assert(s.subrange(0, a.len() as int) =~= s.subrange(0, (a + b).len() as int).subrange(
        0,
        a.len() as int,
    ));
    assert((a + b).subrange(0, a.len() as int) =~= a);
}

/// `a + s` begins with `a`.
proof fn lemma_sum_has_prefix(a: Seq<char>, s: Seq<char>)
    ensures
        has_prefix(a + s, a),
{
    assert((a + s).subrange(0, a.len() as int) =~= a);
}

/// Wrapping twice is wrapping once: a wrapped command begins with the
/// tool's own name and is therefore left as it is.
pub proof fn lemma_wrap_idempotent(env: Option<Seq<char>>, cmd: Seq<char>)
    ensures
        wrapped(env, wrapped(env, cmd)) == wrapped(env, cmd),
{
    lemma_tool_words();
    let once = wrapped(env, cmd);
    if once != cmd {
        if env == Some("uv"@) {
            assert("uv run "@ =~= "uv "@ + seq!['r', 'u', 'n', ' ']);
            lemma_sum_has_prefix("uv run "@, cmd);
            lemma_prefix_of_sum(once, "uv "@, seq!['r', 'u', 'n', ' ']);
        } else if env == Some("uvx"@) {
            lemma_sum_has_prefix("uvx "@, cmd);
        } else if env == Some("pnpm"@) {
            assert("pnpm exec "@ =~= "pnpm "@ + seq!['e', 'x', 'e', 'c', ' ']);
            lemma_sum_has_prefix("pnpm exec "@, cmd);
            lemma_prefix_of_sum(once, "pnpm "@, seq!['e', 'x', 'e', 'c', ' ']);
        } else {
            lemma_sum_has_prefix("npx "@, cmd);
        }
    }
}

/// A command that already begins with the invocation of its tool
/// environment is not wrapped again.
pub proof fn lemma_wrap_keeps_invocation(cmd: Seq<char>)
    ensures
        has_prefix(cmd, "uv run "@) ==> wrapped(Some("uv"@), cmd) == cmd,
        has_prefix(cmd, "uvx "@) ==> wrapped(Some("uvx"@), cmd) == cmd,
        has_prefix(cmd, "pnpm exec "@) ==> wrapped(Some("pnpm"@), cmd) == cmd,
        has_prefix(cmd, "npx "@) ==> wrapped(Some("npm"@), cmd) == cmd,
{
    lemma_tool_words();
    if has_prefix(cmd, "uv run "@) {
        assert("uv run "@ =~= "uv "@ + seq!['r', 'u', 'n', ' ']);
        lemma_prefix_of_sum(cmd, "uv "@, seq!['r', 'u', 'n', ' ']);
    }
    if has_prefix(cmd, "pnpm exec "@) {
        assert("pnpm exec "@ =~= "pnpm "@ + seq!['e', 'x', 'e', 'c', ' ']);
        lemma_prefix_of_sum(cmd, "pnpm "@, seq!['e', 'x', 'e', 'c', ' ']);
    }
}

/// `plz:` and a name without `:` spell the top-level task of that name.
pub proof fn lemma_parse_top_level(name: Seq<char>)
    requires
        !name.contains(':'),
    ensures
        parse_ref(seq!['p', 'l', 'z', ':'] + name) == Some(TaskRefView::TopLevel(name)),
{
    let prefix = seq!['p', 'l', 'z', ':'];
    let cmd = prefix + name;
    assert(cmd.subrange(0, 4) =~= prefix);
    assert(cmd.skip(4) =~= name);
    assert forall|j: int| 0 <= j < name.len() implies name[j] != ':' by {
        if name[j] == ':' {
            assert(name.contains(':'));
        }
    }
    lemma_first_index_unique(name, ':', name.len() as int);
}

/// `plz:`, a group's name without `:`, `:` and a task's name spell that
/// task of that group.
pub proof fn lemma_parse_group(group: Seq<char>, task: Seq<char>)
    requires
        !group.contains(':'),
    ensures
        parse_ref(seq!['p', 'l', 'z', ':'] + group + seq![':'] + task) == Some(
            TaskRefView::Group(group, task),
        ),
{
    let prefix = seq!['p', 'l', 'z', ':'];
    let cmd = prefix + group + seq![':'] + task;
    let rest = group + seq![':'] + task;
    assert(cmd.subrange(0, 4) =~= prefix);
    assert(cmd.skip(4) =~= rest);
    assert forall|j: int| 0 <= j < group.len() implies rest[j] != ':' by {
        if group[j] == ':' {
            assert(group.contains(':'));
        }
    }
    lemma_first_index_unique(rest, ':', group.len() as int);
    assert(rest.take(group.len() as int) =~= group);
    assert(rest.skip(group.len() as int + 1) =~= task);
}

/// Begins a run of the top-level task `task_name`, with `base_dir` as the
/// directory of the configuration file. There is no such run where the
/// configuration has no top-level task of that name.
pub fn run_task<'a>(
    config: &'a PlzConfig,
    task_name: &str,
    base_dir: &str,
    interactive: bool,
) -> (r: Result<Run<'a>, RunError>)
    ensures
        match r {
            Ok(run) => {
                &&& config@.task(task_name@) is Some
                &&& run.config() == config@
                &&& run@ == start(
                    config@.task(task_name@)->0,
                    base_dir@,
                    interactive,
                    Seq::empty(),
                )
            },
            Err(e) => {
                &&& config@.task(task_name@) is None
                &&& e@ == (RunErrorView::TaskNotFound { group: None, name: task_name@ })
            },
        },
{
    let none: Vec<String> = Vec::new();
    assert(texts(none@) =~= Seq::<Seq<char>>::empty());
    run_task_with_args(config, task_name, base_dir, interactive, &none)
}

/// Begins a run of the top-level task `task_name` whose single command is
/// followed by `extra_args`.
pub fn run_task_with_args<'a>(
    config: &'a PlzConfig,
    task_name: &str,
    base_dir: &str,
    interactive: bool,
    extra_args: &Vec<String>,
) -> (r: Result<Run<'a>, RunError>)
    ensures
        match r {
            Ok(run) => {
                &&& config@.task(task_name@) is Some
                &&& run.config() == config@
                &&& run@ == start(
                    config@.task(task_name@)->0,
                    base_dir@,
                    interactive,
                    texts(extra_args@),
                )
            },
            Err(e) => {
                &&& config@.task(task_name@) is None
                &&& e@ == (RunErrorView::TaskNotFound { group: None, name: task_name@ })
            },
        },
{
    match config.get_task(task_name) {
        Some(task) => Ok(Run::new(config, task, base_dir, interactive, extra_args)),
        None => Err(RunError::TaskNotFound { group: None, name: task_name.to_owned() }),
    }
}

/// Begins a run of the task `task_name` of the group `group_name`.
pub fn run_group_task<'a>(
    config: &'a PlzConfig,
    group_name: &str,
    task_name: &str,
    base_dir: &str,
    interactive: bool,
) -> (r: Result<Run<'a>, RunError>)
    ensures
        match r {
            Ok(run) => {
                &&& config@.group_task(group_name@, task_name@) is Some
                &&& run.config() == config@
                &&& run@ == start(
                    config@.group_task(group_name@, task_name@)->0,
                    base_dir@,
                    interactive,
                    Seq::empty(),
                )
            },
            Err(e) => {
                &&& config@.group_task(group_name@, task_name@) is None
                &&& e@ == (RunErrorView::TaskNotFound {
                    group: Some(group_name@),
                    name: task_name@,
                })
            },
        },
{
    let none: Vec<String> = Vec::new();
    assert(texts(none@) =~= Seq::<Seq<char>>::empty());
    run_group_task_with_args(config, group_name, task_name, base_dir, interactive, &none)
}

/// Begins a run of the task `task_name` of the group `group_name` whose
/// single command is followed by `extra_args`.
pub fn run_group_task_with_args<'a>(
    config: &'a PlzConfig,
    group_name: &str,
    task_name: &str,
    base_dir: &str,
    interactive: bool,
    extra_args: &Vec<String>,
) -> (r: Result<Run<'a>, RunError>)
    ensures
        match r {
            Ok(run) => {
                &&& config@.group_task(group_name@, task_name@) is Some
                &&& run.config() == config@
                &&& run@ == start(
                    config@.group_task(group_name@, task_name@)->0,
                    base_dir@,
                    interactive,
                    texts(extra_args@),
                )
            },
            Err(e) => {
                &&& config@.group_task(group_name@, task_name@) is None
                &&& e@ == (RunErrorView::TaskNotFound {
                    group: Some(group_name@),
                    name: task_name@,
                })
            },
        },
{
    match config.get_group_task(group_name, task_name) {
        Some(task) => Ok(Run::new(config, task, base_dir, interactive, extra_args)),
        None => Err(
            RunError::TaskNotFound {
                group: Some(group_name.to_owned()),
                name: task_name.to_owned(),
            },
        ),
    }
}

impl RunErrorView {
    /// The failure in words.
    pub open spec fn message(self) -> Seq<char> {
        match self {
            RunErrorView::TaskNotFound { group: None, name } => "\""@ + name
                + "\" isn't a task. Run `plz` to see all commands."@,
            RunErrorView::TaskNotFound { group: Some(g), name } => "\""@ + g + ":"@ + name
                + "\" isn't a task. Run `plz "@ + g + "` to see group tasks."@,
            RunErrorView::CommandFailure { exit_code, command } => "Command failed with exit code "@
                + decimal(exit_code as int) + ": "@ + command,
            RunErrorView::AggregatedFailure => "One or more tasks failed"@,
            RunErrorView::Aborted => "Aborted"@,
            RunErrorView::Unquotable => "Failed to escape arguments: cannot shell-quote string containing nul byte"@,
            RunErrorView::Io(m) => m,
        }
    }
}

impl RunError {
    /// The failure in words.
    pub fn message(&self) -> (r: String)
        ensures
            r@ == self@.message(),
    {
        match self {
            RunError::TaskNotFound { group: None, name } => {
                concat3("\"", name.as_str(), "\" isn't a task. Run `plz` to see all commands.")
            },
            RunError::TaskNotFound { group: Some(g), name } => {
                let mut r = concat3("\"", g.as_str(), ":");
                r.append(name.as_str());
                r.append("\" isn't a task. Run `plz ");
                r.append(g.as_str());
                r.append("` to see group tasks.");
                r
            },
            RunError::CommandFailure { exit_code, command } => {
                let mut r = "Command failed with exit code ".to_owned();
                push_decimal(&mut r, *exit_code as i64);
                r.append(": ");
                r.append(command.as_str());
                r
            },
            RunError::AggregatedFailure => "One or more tasks failed".to_owned(),
            RunError::Aborted => "Aborted".to_owned(),
            RunError::Unquotable => "Failed to escape arguments: cannot shell-quote string containing nul byte".to_owned(),
            RunError::Io(m) => m.clone(),
        }
    }
}

} // verus!
