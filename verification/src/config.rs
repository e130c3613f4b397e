//! The configuration model: tasks, groups of tasks and shared defaults.

use crate::names::{NameMap, pairs_map};
use crate::text::{
    from_chars, join, joined, lines, opt_text, opt_texts, rows, same_text, split_lines,
    strip_leading, strip_leading_chars, texts, to_chars, trim_chars, trimmed,
};
use vstd::prelude::*;

verus! {

/// What to do when a task has failed.
#[derive(Debug)]
pub enum FailHook {
    /// Run this command.
    Command(String),
    /// Offer to run this command; if it succeeds the failure counts as resolved.
    Suggest { suggest_command: String },
    /// Show this message.
    Message(String),
}

pub enum FailHookView {
    Command(Seq<char>),
    Suggest { suggest_command: Seq<char> },
    Message(Seq<char>),
}

impl View for FailHook {
    type V = FailHookView;

    open spec fn view(&self) -> FailHookView {
        match *self {
            FailHook::Command(c) => FailHookView::Command(c@),
            FailHook::Suggest { suggest_command } => FailHookView::Suggest {
                suggest_command: suggest_command@,
            },
            FailHook::Message(m) => FailHookView::Message(m@),
        }
    }
}

impl Clone for FailHook {
    fn clone(&self) -> (r: Self)
        ensures
            r@ == self@,
    {
        match self {
            FailHook::Command(c) => FailHook::Command(c.clone()),
            FailHook::Suggest { suggest_command } => FailHook::Suggest {
                suggest_command: suggest_command.clone(),
            },
            FailHook::Message(m) => FailHook::Message(m.clone()),
        }
    }
}

/// Defaults shared by a set of tasks.
#[derive(Debug, Default)]
pub struct GlobalSettings {
    /// Tool environment applied to every task: "pnpm", "npm", "uv" or "uvx".
    pub tool_env: Option<String>,
    /// Working directory of every task, relative to the configuration file.
    pub dir: Option<String>,
}

pub struct GlobalSettingsView {
    pub tool_env: Option<Seq<char>>,
    pub dir: Option<Seq<char>>,
}

impl View for GlobalSettings {
    type V = GlobalSettingsView;

    open spec fn view(&self) -> GlobalSettingsView {
        GlobalSettingsView { tool_env: opt_text(self.tool_env), dir: opt_text(self.dir) }
    }
}

/// A named unit of work.
#[derive(Debug)]
pub struct Task {
    /// A single command.
    pub run: Option<String>,
    /// Commands run one after another.
    pub run_serial: Option<Vec<String>>,
    /// Commands run at the same time.
    pub run_parallel: Option<Vec<String>>,
    /// Tool environment: "pnpm", "npm", "uv" or "uvx".
    pub tool_env: Option<String>,
    /// Working directory, relative to the configuration file.
    pub dir: Option<String>,
    /// What to do when the task fails.
    pub fail_hook: Option<FailHook>,
    /// Shown when tasks are listed.
    pub description: Option<String>,
    /// The git hook stage that runs the task.
    pub git_hook: Option<String>,
}

pub struct TaskView {
    pub run: Option<Seq<char>>,
    pub run_serial: Option<Seq<Seq<char>>>,
    pub run_parallel: Option<Seq<Seq<char>>>,
    pub tool_env: Option<Seq<char>>,
    pub dir: Option<Seq<char>>,
    pub fail_hook: Option<FailHookView>,
    pub description: Option<Seq<char>>,
    pub git_hook: Option<Seq<char>>,
}

/// The view of an optional fail hook.
pub open spec fn opt_hook(o: Option<FailHook>) -> Option<FailHookView> {
    match o {
        Some(h) => Some(h@),
        None => None,
    }
}

impl View for Task {
    type V = TaskView;

    open spec fn view(&self) -> TaskView {
        TaskView {
            run: opt_text(self.run),
            run_serial: opt_texts(self.run_serial),
            run_parallel: opt_texts(self.run_parallel),
            tool_env: opt_text(self.tool_env),
            dir: opt_text(self.dir),
            fail_hook: opt_hook(self.fail_hook),
            description: opt_text(self.description),
            git_hook: opt_text(self.git_hook),
        }
    }
}

/// A copy of an optional string.
pub fn clone_opt(o: &Option<String>) -> (r: Option<String>)
    ensures
        opt_text(r) == opt_text(*o),
{
    match o {
        Some(s) => Some(s.clone()),
        None => None,
    }
}

/// A copy of a list of strings.
pub fn clone_list(v: &Vec<String>) -> (r: Vec<String>)
    ensures
        texts(r@) == texts(v@),
{
    let mut r: Vec<String> = Vec::new();
    let mut i: usize = 0;
    while i < v.len()
        invariant
            i <= v.len(),
            r@.len() == i,
            forall|j: int| 0 <= j < i ==> r@[j]@ == v@[j]@,
        decreases v.len() - i,
    {
        r.push(v[i].clone());
        i += 1;
    }
    assert(texts(r@) =~= texts(v@));
    r
}

/// A copy of an optional list of strings.
pub fn clone_opt_list(o: &Option<Vec<String>>) -> (r: Option<Vec<String>>)
    ensures
        opt_texts(r) == opt_texts(*o),
{
    match o {
        Some(v) => Some(clone_list(v)),
        None => None,
    }
}

impl Clone for Task {
    fn clone(&self) -> (r: Self)
        ensures
            r@ == self@,
    {
        Task {
            run: clone_opt(&self.run),
            run_serial: clone_opt_list(&self.run_serial),
            run_parallel: clone_opt_list(&self.run_parallel),
            tool_env: clone_opt(&self.tool_env),
            dir: clone_opt(&self.dir),
            fail_hook: match &self.fail_hook {
                Some(h) => Some(h.clone()),
                None => None,
            },
            description: clone_opt(&self.description),
            git_hook: clone_opt(&self.git_hook),
        }
    }
}

impl Clone for GlobalSettings {
    fn clone(&self) -> (r: Self)
        ensures
            r@ == self@,
    {
        GlobalSettings { tool_env: clone_opt(&self.tool_env), dir: clone_opt(&self.dir) }
    }
}

/// The view of optional defaults.
pub open spec fn opt_settings(o: Option<GlobalSettings>) -> Option<GlobalSettingsView> {
    match o {
        Some(s) => Some(s@),
        None => None,
    }
}

/// A namespace of tasks with defaults of its own.
#[derive(Debug)]
pub struct TaskGroup {
    pub extends: Option<GlobalSettings>,
    pub tasks: NameMap<Task>,
}

pub struct TaskGroupView {
    pub extends: Option<GlobalSettingsView>,
    pub tasks: Map<Seq<char>, TaskView>,
}

impl View for TaskGroup {
    type V = TaskGroupView;

    open spec fn view(&self) -> TaskGroupView {
        TaskGroupView { extends: opt_settings(self.extends), tasks: self.tasks@ }
    }
}

/// Everything a configuration file declares.
#[derive(Debug)]
pub struct PlzConfig {
    /// Defaults for every task.
    pub extends: Option<GlobalSettings>,
    /// Groups of tasks, by name.
    pub taskgroup: Option<NameMap<TaskGroup>>,
    /// Top-level tasks, by name.
    pub tasks: NameMap<Task>,
}

pub struct PlzConfigView {
    pub extends: Option<GlobalSettingsView>,
    pub taskgroup: Option<Map<Seq<char>, TaskGroupView>>,
    pub tasks: Map<Seq<char>, TaskView>,
}

impl View for PlzConfig {
    type V = PlzConfigView;

    open spec fn view(&self) -> PlzConfigView {
        PlzConfigView {
            extends: opt_settings(self.extends),
            taskgroup: match self.taskgroup {
                Some(g) => Some(g@),
                None => None,
            },
            tasks: self.tasks@,
        }
    }
}

impl PlzConfigView {
    /// The group called `name`, if the configuration has one.
    pub open spec fn group(self, name: Seq<char>) -> Option<TaskGroupView> {
        match self.taskgroup {
            Some(groups) => if groups.dom().contains(name) {
                Some(groups[name])
            } else {
                None
            },
            None => None,
        }
    }

    /// The top-level task called `name`, if there is one.
    pub open spec fn task(self, name: Seq<char>) -> Option<TaskView> {
        if self.tasks.dom().contains(name) {
            Some(self.tasks[name])
        } else {
            None
        }
    }

    /// The task called `task` in the group called `group`, if both exist.
    pub open spec fn group_task(self, group: Seq<char>, task: Seq<char>) -> Option<TaskView> {
        match self.group(group) {
            Some(g) => if g.tasks.dom().contains(task) {
                Some(g.tasks[task])
            } else {
                None
            },
            None => None,
        }
    }
}

impl PlzConfig {
    /// The group called `name`.
    pub fn get_group(&self, name: &str) -> (r: Option<&TaskGroup>)
        ensures
            match r {
                Some(g) => self@.group(name@) == Some(g@),
                None => self@.group(name@) is None,
            },
    {
        match &self.taskgroup {
            Some(groups) => groups.get(name),
            None => None,
        }
    }

    /// The task called `task` in the group called `group`.
    pub fn get_group_task(&self, group: &str, task: &str) -> (r: Option<&Task>)
        ensures
            match r {
                Some(t) => self@.group_task(group@, task@) == Some(t@),
                None => self@.group_task(group@, task@) is None,
            },
    {
        match self.get_group(group) {
            Some(g) => g.tasks.get(task),
            None => None,
        }
    }

    /// The top-level task called `name`.
    pub fn get_task(&self, name: &str) -> (r: Option<&Task>)
        ensures
            match r {
                Some(t) => self@.task(name@) == Some(t@),
                None => self@.task(name@) is None,
            },
    {
        self.tasks.get(name)
    }
}

/// The names of the git hook stages that a task may be attached to.
pub open spec fn git_hook_names() -> Seq<Seq<char>> {
    seq![
        "applypatch-msg"@,
        "pre-applypatch"@,
        "post-applypatch"@,
        "pre-commit"@,
        "prepare-commit-msg"@,
        "commit-msg"@,
        "post-commit"@,
        "pre-rebase"@,
        "post-checkout"@,
        "post-merge"@,
        "pre-push"@,
        "pre-receive"@,
        "update"@,
        "post-receive"@,
        "post-update"@,
        "push-to-checkout"@,
        "pre-auto-gc"@,
        "post-rewrite"@,
        "sendemail-validate"@,
    ]
}

/// Whether `name` is a git hook stage.
pub open spec fn valid_git_hook(name: Seq<char>) -> bool {
    git_hook_names().contains(name)
}

/// The git hook stages that a task may be attached to.
pub fn valid_git_hooks() -> (r: Vec<&'static str>)
    ensures
        r@.len() == git_hook_names().len(),
        forall|i: int| 0 <= i < r@.len() ==> r@[i]@ == git_hook_names()[i],
{
    let mut r: Vec<&'static str> = Vec::new();
    r.push("applypatch-msg");
    r.push("pre-applypatch");
    r.push("post-applypatch");
    r.push("pre-commit");
    r.push("prepare-commit-msg");
    r.push("commit-msg");
    r.push("post-commit");
    r.push("pre-rebase");
    r.push("post-checkout");
    r.push("post-merge");
    r.push("pre-push");
    r.push("pre-receive");
    r.push("update");
    r.push("post-receive");
    r.push("post-update");
    r.push("push-to-checkout");
    r.push("pre-auto-gc");
    r.push("post-rewrite");
    r.push("sendemail-validate");
    r
}

/// Whether `name` is a git hook stage.
pub fn is_valid_git_hook(name: &str) -> (r: bool)
    ensures
        r == valid_git_hook(name@),
{
    let names = valid_git_hooks();
    let mut i: usize = 0;
    while i < names.len()
        invariant
            i <= names.len(),
            names@.len() == git_hook_names().len(),
            forall|j: int| 0 <= j < names@.len() ==> names@[j]@ == git_hook_names()[j],
            forall|j: int| 0 <= j < i ==> git_hook_names()[j] != name@,
        decreases names.len() - i,
    {
        if same_text(names[i], name) {
            assert(git_hook_names()[i as int] == name@);
            return true;
        }
        i += 1;
    }
    false
}

/// The value in force: the task's own where it has one, else the inherited
/// one; an empty string, own or inherited, stands for no value.
pub open spec fn effective(own: Option<Seq<char>>, inherited: Option<Seq<char>>) -> Option<
    Seq<char>,
> {
    let chosen = if own is Some {
        own
    } else {
        inherited
    };
    if chosen == Some(Seq::<char>::empty()) {
        None
    } else {
        chosen
    }
}

/// The nearer of two layers of defaults: the group's value where the group
/// sets one, else the top-level one.
pub open spec fn nearest(
    group: Option<GlobalSettingsView>,
    top: Option<GlobalSettingsView>,
) -> GlobalSettingsView {
    let top_env = match top {
        Some(t) => t.tool_env,
        None => None,
    };
    let top_dir = match top {
        Some(t) => t.dir,
        None => None,
    };
    match group {
        Some(g) => GlobalSettingsView {
            tool_env: if g.tool_env is Some {
                g.tool_env
            } else {
                top_env
            },
            dir: if g.dir is Some {
                g.dir
            } else {
                top_dir
            },
        },
        None => GlobalSettingsView { tool_env: top_env, dir: top_dir },
    }
}

/// `task` with its tool environment and directory settled against `defaults`.
pub open spec fn cascade_task(task: TaskView, defaults: GlobalSettingsView) -> TaskView {
    TaskView {
        tool_env: effective(task.tool_env, defaults.tool_env),
        dir: effective(task.dir, defaults.dir),
        ..task
    }
}

/// Every task of `tasks` settled against `defaults`.
pub open spec fn cascade_tasks(
    tasks: Map<Seq<char>, TaskView>,
    defaults: GlobalSettingsView,
) -> Map<Seq<char>, TaskView> {
    tasks.map_values(|t: TaskView| cascade_task(t, defaults))
}

/// `group` with its tasks settled against its own defaults and, behind them, `top`.
pub open spec fn cascade_group(
    group: TaskGroupView,
    top: Option<GlobalSettingsView>,
) -> TaskGroupView {
    TaskGroupView {
        extends: group.extends,
        tasks: cascade_tasks(group.tasks, nearest(group.extends, top)),
    }
}

/// The configuration in which every task has its final tool environment
/// and directory.
pub open spec fn cascaded(config: PlzConfigView) -> PlzConfigView {
    PlzConfigView {
        extends: config.extends,
        taskgroup: match config.taskgroup {
            Some(groups) => Some(
                groups.map_values(|g: TaskGroupView| cascade_group(g, config.extends)),
            ),
            None => None,
        },
        tasks: cascade_tasks(config.tasks, nearest(None, config.extends)),
    }
}

/// Whether the task names no git hook stage or a known one.
pub open spec fn hook_known(task: TaskView) -> bool {
    match task.git_hook {
        Some(h) => valid_git_hook(h),
        None => true,
    }
}

/// Whether every task of `tasks` names no git hook stage or a known one.
pub open spec fn hooks_known(tasks: Map<Seq<char>, TaskView>) -> bool {
    forall|k: Seq<char>| tasks.dom().contains(k) ==> hook_known(#[trigger] tasks[k])
}

/// Whether every task of the configuration, in a group or not, names no
/// git hook stage or a known one.
pub open spec fn all_hooks_known(config: PlzConfigView) -> bool {
    &&& hooks_known(config.tasks)
    &&& match config.taskgroup {
        Some(groups) => forall|g: Seq<char>|
            groups.dom().contains(g) ==> hooks_known(#[trigger] groups[g].tasks),
        None => true,
    }
}

/// Why a configuration was rejected.
#[derive(Debug)]
pub enum ConfigError {
    /// The task `task`, of the group `group` if any, names `hook`, which is
    /// no git hook stage.
    InvalidGitHook { group: Option<String>, task: String, hook: String },
}

pub enum ConfigErrorView {
    InvalidGitHook { group: Option<Seq<char>>, task: Seq<char>, hook: Seq<char> },
}

impl View for ConfigError {
    type V = ConfigErrorView;

    open spec fn view(&self) -> ConfigErrorView {
        match *self {
            ConfigError::InvalidGitHook { group, task, hook } => ConfigErrorView::InvalidGitHook {
                group: opt_text(group),
                task: task@,
                hook: hook@,
            },
        }
    }
}

/// Whether `error` names a task of `config` whose git hook stage is unknown.
/// A task inside a group is only named when every top-level task is in order.
pub open spec fn reports(config: PlzConfigView, error: ConfigErrorView) -> bool {
    match error {
        ConfigErrorView::InvalidGitHook { group: None, task, hook } => {
            &&& config.tasks.dom().contains(task)
            &&& config.tasks[task].git_hook == Some(hook)
            &&& !valid_git_hook(hook)
        },
        ConfigErrorView::InvalidGitHook { group: Some(g), task, hook } => {
            &&& hooks_known(config.tasks)
            &&& config.taskgroup is Some
            &&& config.taskgroup->0.dom().contains(g)
            &&& config.taskgroup->0[g].tasks.dom().contains(task)
            &&& config.taskgroup->0[g].tasks[task].git_hook == Some(hook)
            &&& !valid_git_hook(hook)
        },
    }
}

/// The value in force for one setting of one task.
fn settle(own: &Option<String>, inherited: &Option<String>) -> (r: Option<String>)
    ensures
        opt_text(r) == effective(opt_text(*own), opt_text(*inherited)),
{
    let chosen = match own {
        Some(_) => own,
        None => inherited,
    };
    match chosen {
        Some(s) => {
            if s.as_str().is_empty() {
                assert(s@ =~= Seq::<char>::empty());
                None
            } else {
                Some(s.clone())
            }
        },
        None => None,
    }
}

/// Settling the values of a map built from pairs gives the map built
/// from the settled values.
proof fn lemma_pairs_map_values(
    keys: Seq<Seq<char>>,
    before: Seq<TaskView>,
    after: Seq<TaskView>,
    defaults: GlobalSettingsView,
)
    requires
        keys.len() == before.len(),
        before.len() == after.len(),
        forall|j: int| 0 <= j < before.len() ==> after[j] == cascade_task(before[j], defaults),
    ensures
        pairs_map(keys, after) == cascade_tasks(pairs_map(keys, before), defaults),
{
    assert forall|k: Seq<char>| keys.contains(k) implies #[trigger] pairs_map(keys, after)[k]
        == cascade_tasks(pairs_map(keys, before), defaults)[k] by {
        let j = keys.index_of(k);
        assert(0 <= j < keys.len() && keys[j] == k);
    }
    assert(pairs_map(keys, after) =~= cascade_tasks(pairs_map(keys, before), defaults));
}

/// Settles every task of `tasks` against the given defaults.
fn settle_tasks(tasks: &mut NameMap<Task>, env: &Option<String>, dir: &Option<String>)
    ensures
        final(tasks).keys() == old(tasks).keys(),
        final(tasks)@ == cascade_tasks(
            old(tasks)@,
            GlobalSettingsView { tool_env: opt_text(*env), dir: opt_text(*dir) },
        ),
{
    let ghost defaults = GlobalSettingsView { tool_env: opt_text(*env), dir: opt_text(*dir) };
    let n = tasks.len();
    let mut i: usize = 0;
    while i < n
        invariant
            i <= n,
            n == tasks.keys().len(),
            n == tasks.vals().len(),
            n == old(tasks).vals().len(),
            tasks.keys() == old(tasks).keys(),
            defaults == (GlobalSettingsView { tool_env: opt_text(*env), dir: opt_text(*dir) }),
            forall|j: int| 0 <= j < i ==> tasks.vals()[j] == cascade_task(
                old(tasks).vals()[j],
                defaults,
            ),
            forall|j: int| i <= j < n ==> tasks.vals()[j] == old(tasks).vals()[j],
        decreases n - i,
    {
        let mut task = tasks.value_at(i).clone();
        task.tool_env = settle(&task.tool_env, env);
        task.dir = settle(&task.dir, dir);
        tasks.set_value_at(i, task);
        i += 1;
    }
    proof {
        lemma_pairs_map_values(tasks.keys(), old(tasks).vals(), tasks.vals(), defaults);
    }
}

/// The position of the first task of `tasks` that names an unknown git hook stage.
fn first_unknown_hook(tasks: &NameMap<Task>) -> (r: Option<usize>)
    ensures
        match r {
            Some(i) => {
                &&& i < tasks.keys().len()
                &&& tasks@.dom().contains(tasks.keys()[i as int])
                &&& !hook_known(tasks@[tasks.keys()[i as int]])
                &&& forall|j: int| 0 <= j < i ==> hook_known(#[trigger] tasks@[tasks.keys()[j]])
            },
            None => hooks_known(tasks@),
        },
{
    let n = tasks.len();
    let mut i: usize = 0;
    while i < n
        invariant
            i <= n,
            n == tasks.keys().len(),
            forall|j: int| 0 <= j < i ==> hook_known(#[trigger] tasks@[tasks.keys()[j]]),
        decreases n - i,
    {
        let task = tasks.value_at(i);
        let name = tasks.key_at(i);
        let known = match &task.git_hook {
            Some(h) => is_valid_git_hook(h.as_str()),
            None => true,
        };
        if !known {
            return Some(i);
        }
        i += 1;
    }
    proof {
        assert forall|k: Seq<char>| tasks@.dom().contains(k) implies hook_known(
            #[trigger] tasks@[k],
        ) by {
            let j = tasks.keys().index_of(k);
            assert(0 <= j < tasks.keys().len() && tasks.keys()[j] == k);
        }
    }
    None
}

/// Whether the task at position `i` of `keys` is the first, in the order
/// of `keys`, that names an unknown git hook stage.
pub open spec fn first_unknown(
    keys: Seq<Seq<char>>,
    tasks: Map<Seq<char>, TaskView>,
    i: int,
) -> bool {
    &&& 0 <= i < keys.len()
    &&& !hook_known(tasks[keys[i]])
    &&& forall|j: int| 0 <= j < i ==> hook_known(#[trigger] tasks[keys[j]])
}

/// Whether the group at position `i` of `keys` is the first, in the
/// order of `keys`, that holds a task with an unknown git hook stage.
pub open spec fn first_unknown_group(
    keys: Seq<Seq<char>>,
    groups: Map<Seq<char>, TaskGroupView>,
    i: int,
) -> bool {
    &&& 0 <= i < keys.len()
    &&& !hooks_known(groups[keys[i]].tasks)
    &&& forall|j: int| 0 <= j < i ==> hooks_known(#[trigger] groups[keys[j]].tasks)
}

/// The error that names the task at position `i` of `tasks`.
fn unknown_hook_error(group: Option<&String>, tasks: &NameMap<Task>, i: usize) -> (e: ConfigError)
    requires
        i < tasks.keys().len(),
        !hook_known(tasks@[tasks.keys()[i as int]]),
    ensures
        e@ == (ConfigErrorView::InvalidGitHook {
            group: match group {
                Some(g) => Some(g@),
                None => None,
            },
            task: tasks.keys()[i as int],
            hook: tasks@[tasks.keys()[i as int]].git_hook->0,
        }),
{
    let task = tasks.value_at(i);
    let hook = match &task.git_hook {
        Some(h) => h.clone(),
        None => String::new(),
    };
    ConfigError::InvalidGitHook {
        group: match group {
            Some(g) => Some(g.clone()),
            None => None,
        },
        task: tasks.key_at(i).clone(),
        hook,
    }
}

/// Settling the groups of a map built from pairs gives the map built
/// from the settled groups.
proof fn lemma_pairs_map_groups(
    keys: Seq<Seq<char>>,
    before: Seq<TaskGroupView>,
    after: Seq<TaskGroupView>,
    top: Option<GlobalSettingsView>,
)
    requires
        keys.len() == before.len(),
        before.len() == after.len(),
        forall|j: int| 0 <= j < before.len() ==> after[j] == cascade_group(before[j], top),
    ensures
        pairs_map(keys, after) == pairs_map(keys, before).map_values(
            |g: TaskGroupView| cascade_group(g, top),
        ),
{
    let mapped = pairs_map(keys, before).map_values(|g: TaskGroupView| cascade_group(g, top));
    assert forall|k: Seq<char>| keys.contains(k) implies #[trigger] pairs_map(keys, after)[k]
        == mapped[k] by {
        let j = keys.index_of(k);
        assert(0 <= j < keys.len() && keys[j] == k);
    }
    assert(pairs_map(keys, after) =~= mapped);
}

/// The error for the first group, in order, that holds a task with an
/// unknown git hook stage.
fn first_unknown_in_groups(groups: &NameMap<TaskGroup>) -> (r: Option<ConfigError>)
    ensures
        match r {
            Some(e) => {
                &&& e@ matches ConfigErrorView::InvalidGitHook { group: Some(g), task, hook }
                &&& groups@.dom().contains(g)
                &&& groups@[g].tasks.dom().contains(task)
                &&& groups@[g].tasks[task].git_hook == Some(hook)
                &&& !valid_git_hook(hook)
                &&& exists|i: int, k: int|
                    first_unknown_group(groups.keys(), groups@, i) && #[trigger] groups.keys()[i]
                        == g && 0 <= i < groups.held().len() && first_unknown(
                        groups.held()[i].tasks.keys(),
                        groups.held()[i].tasks@,
                        k,
                    ) && #[trigger] groups.held()[i].tasks.keys()[k] == task
            },
            None => forall|g: Seq<char>|
                groups@.dom().contains(g) ==> hooks_known(#[trigger] groups@[g].tasks),
        },
{
    let n = groups.len();
    let mut g: usize = 0;
    while g < n
        invariant
            g <= n,
            n == groups.keys().len(),
            n == groups.held().len(),
            forall|j: int| 0 <= j < g ==> hooks_known(#[trigger] groups@[groups.keys()[j]].tasks),
        decreases n - g,
    {
        let group = groups.value_at(g);
        let name = groups.key_at(g);
        match first_unknown_hook(&group.tasks) {
            Some(i) => {
                assert(!hook_known(group.tasks@[group.tasks.keys()[i as int]]));
                assert(first_unknown_group(groups.keys(), groups@, g as int));
                assert(first_unknown(
                    groups.held()[g as int].tasks.keys(),
                    groups.held()[g as int].tasks@,
                    i as int,
                ));
                let e = unknown_hook_error(Some(name), &group.tasks, i);
                assert(groups.keys()[g as int] == name@ && groups.held()[g as int].tasks.keys()[i as int]
                    == e@->task);
                return Some(e);
            },
            None => {},
        }
        g += 1;
    }
    proof {
        assert forall|k: Seq<char>| groups@.dom().contains(k) implies hooks_known(
            #[trigger] groups@[k].tasks,
        ) by {
            let j = groups.keys().index_of(k);
            assert(0 <= j < groups.keys().len() && groups.keys()[j] == k);
        }
    }
    None
}

/// The nearer of the group's value and the top-level one.
fn nearer(own: Option<&Option<String>>, top: &Option<String>) -> (r: Option<String>)
    ensures
        opt_text(r) == match own {
            Some(o) => if opt_text(*o) is Some {
                opt_text(*o)
            } else {
                opt_text(*top)
            },
            None => opt_text(*top),
        },
{
    match own {
        Some(Some(s)) => Some(s.clone()),
        _ => clone_opt(top),
    }
}

impl PlzConfig {
    /// Checks the git hook stages and gives every task its final tool
    /// environment and directory: the task's own value where it has one,
    /// else that of its group, else the top-level one, and no value where
    /// the value found is the empty string. Where tasks name unknown git
    /// hook stages, the error names the first of them: top-level tasks
    /// come before groups, groups in their order, and the tasks of a
    /// group in theirs.
    pub fn resolve(self) -> (r: Result<PlzConfig, ConfigError>)
        ensures
            match r {
                Ok(c) => {
                    &&& all_hooks_known(self@)
                    &&& c@ == cascaded(self@)
                    &&& c.tasks.keys() == self.tasks.keys()
                },
                Err(e) => {
                    &&& reports(self@, e@)
                    &&& e@ matches ConfigErrorView::InvalidGitHook { group: None, task, hook }
                        ==> exists|i: int|
                        first_unknown(self.tasks.keys(), self@.tasks, i)
                            && #[trigger] self.tasks.keys()[i] == task
                    &&& e@ matches ConfigErrorView::InvalidGitHook { group: Some(g), task, hook }
                        ==> exists|i: int, k: int|
                        first_unknown_group(
                            self.taskgroup->0.keys(),
                            self@.taskgroup->0,
                            i,
                        ) && #[trigger] self.taskgroup->0.keys()[i] == g && 0 <= i
                            < self.taskgroup->0.held().len() && first_unknown(
                            self.taskgroup->0.held()[i].tasks.keys(),
                            self.taskgroup->0.held()[i].tasks@,
                            k,
                        ) && #[trigger] self.taskgroup->0.held()[i].tasks.keys()[k] == task
                },
            },
    {
        let PlzConfig { extends, taskgroup, mut tasks } = self;
        match first_unknown_hook(&tasks) {
            Some(i) => {
                assert(first_unknown(tasks.keys(), tasks@, i as int));
                return Err(unknown_hook_error(None, &tasks, i));
            },
            None => {},
        }
        let top_env = match &extends {
            Some(e) => clone_opt(&e.tool_env),
            None => None,
        };
        let top_dir = match &extends {
            Some(e) => clone_opt(&e.dir),
            None => None,
        };
        settle_tasks(&mut tasks, &top_env, &top_dir);
        let taskgroup = match taskgroup {
            Some(mut groups) => {
                match first_unknown_in_groups(&groups) {
                    Some(e) => {
                        return Err(e);
                    },
                    None => {},
                }
                let n = groups.len();
                let ghost before = groups.vals();
                let mut g: usize = 0;
                while g < n
                    invariant
                        g <= n,
                        n == groups.keys().len(),
                        n == groups.vals().len(),
                        n == before.len(),
                        groups.keys() == self.taskgroup->0.keys(),
                        opt_text(top_env) == nearest(None, opt_settings(extends)).tool_env,
                        opt_text(top_dir) == nearest(None, opt_settings(extends)).dir,
                        forall|j: int| 0 <= j < g ==> groups.vals()[j] == cascade_group(
                            before[j],
                            opt_settings(extends),
                        ),
                        forall|j: int| g <= j < n ==> groups.vals()[j] == before[j],
                    decreases n - g,
                {
                    let placeholder = TaskGroup { extends: None, tasks: NameMap::new() };
                    let mut group = groups.swap_value_at(g, placeholder);
                    let env = nearer(
                        match &group.extends {
                            Some(e) => Some(&e.tool_env),
                            None => None,
                        },
                        &top_env,
                    );
                    let dir = nearer(
                        match &group.extends {
                            Some(e) => Some(&e.dir),
                            None => None,
                        },
                        &top_dir,
                    );
                    settle_tasks(&mut group.tasks, &env, &dir);
                    assert(group@ == cascade_group(before[g as int], opt_settings(extends)));
                    groups.set_value_at(g, group);
                    g += 1;
                }
                proof {
                    lemma_pairs_map_groups(
                        groups.keys(),
                        before,
                        groups.vals(),
                        opt_settings(extends),
                    );
                }
                Some(groups)
            },
            None => None,
        };
        Ok(PlzConfig { extends, taskgroup, tasks })
    }
}

/// What an error reports is there: a configuration of which an error
/// reports an unknown git hook stage does not have all its stages known.
/// So a configuration is rejected exactly when some task names an unknown
/// git hook stage.
pub proof fn lemma_reports_unknown(config: PlzConfigView, error: ConfigErrorView)
    requires
        reports(config, error),
    ensures
        !all_hooks_known(config),
{
    match error {
        ConfigErrorView::InvalidGitHook { group: None, task, hook } => {
            assert(!hook_known(config.tasks[task]));
        },
        ConfigErrorView::InvalidGitHook { group: Some(g), task, hook } => {
            assert(!hook_known(config.taskgroup->0[g].tasks[task]));
            assert(!hooks_known(config.taskgroup->0[g].tasks));
        },
    }
}

/// A top-level task without a tool environment or directory of its own
/// takes the top-level default.
pub proof fn lemma_top_level_inherits(config: PlzConfigView, name: Seq<char>)
    requires
        config.tasks.dom().contains(name),
        config.extends is Some,
    ensures
        cascaded(config).tasks.dom().contains(name),
        config.tasks[name].tool_env is None ==> cascaded(config).tasks[name].tool_env
            == effective(None, config.extends->0.tool_env),
        config.tasks[name].dir is None ==> cascaded(config).tasks[name].dir == effective(
            None,
            config.extends->0.dir,
        ),
        config.tasks[name].tool_env is None && config.extends->0.tool_env is Some
            && config.extends->0.tool_env->0.len() > 0 ==> cascaded(config).tasks[name].tool_env
            == config.extends->0.tool_env,
        config.tasks[name].dir is None && config.extends->0.dir is Some
            && config.extends->0.dir->0.len() > 0 ==> cascaded(config).tasks[name].dir
            == config.extends->0.dir,
{
}

/// A task in a group without a tool environment or directory of its own
/// takes the group's default where the group sets one, else the top-level
/// one.
pub proof fn lemma_group_task_inherits(config: PlzConfigView, group: Seq<char>, name: Seq<char>)
    requires
        config.group_task(group, name) is Some,
    ensures
        cascaded(config).group_task(group, name) is Some,
        ({
            let before = config.group_task(group, name)->0;
            let after = cascaded(config).group_task(group, name)->0;
            let defaults = nearest(config.group(group)->0.extends, config.extends);
            &&& before.tool_env is None ==> after.tool_env == effective(None, defaults.tool_env)
            &&& before.dir is None ==> after.dir == effective(None, defaults.dir)
            &&& before.dir is None && config.group(group)->0.extends is Some
                && config.group(group)->0.extends->0.dir is Some
                && config.group(group)->0.extends->0.dir->0.len() > 0 ==> after.dir
                == config.group(group)->0.extends->0.dir
            &&& before.tool_env is None && config.group(group)->0.extends is Some
                && config.group(group)->0.extends->0.tool_env is Some
                && config.group(group)->0.extends->0.tool_env->0.len() > 0 ==> after.tool_env
                == config.group(group)->0.extends->0.tool_env
        }),
{
}

/// A value that a task sets itself overrides every default, and the empty
/// string set on a task leaves it without a value whatever the defaults are.
pub proof fn lemma_own_value_wins(
    own: Seq<char>,
    group: Option<GlobalSettingsView>,
    top: Option<GlobalSettingsView>,
)
    ensures
        own.len() > 0 ==> effective(Some(own), nearest(group, top).tool_env) == Some(own),
        own.len() > 0 ==> effective(Some(own), nearest(group, top).dir) == Some(own),
        own.len() == 0 ==> effective(Some(own), nearest(group, top).tool_env) is None,
        own.len() == 0 ==> effective(Some(own), nearest(group, top).dir) is None,
{
    if own.len() == 0 {
        assert(own =~= Seq::<char>::empty());
    }
}

/// Settling a configuration keeps its names, and every task comes out as
/// `cascade_task` of what it was, against the defaults nearest to it.
pub proof fn lemma_cascade_pointwise(config: PlzConfigView)
    ensures
        cascaded(config).tasks.dom() == config.tasks.dom(),
        forall|k: Seq<char>| #[trigger]
            config.tasks.dom().contains(k) ==> cascaded(config).tasks[k] == cascade_task(
                config.tasks[k],
                nearest(None, config.extends),
            ),
        forall|g: Seq<char>, k: Seq<char>| #[trigger]
            config.group_task(g, k) is Some ==> cascaded(config).group_task(g, k) == Some(
                cascade_task(
                    config.group_task(g, k)->0,
                    nearest(config.group(g)->0.extends, config.extends),
                ),
            ),
        forall|g: Seq<char>, k: Seq<char>| #[trigger]
            config.group_task(g, k) is None ==> cascaded(config).group_task(g, k) is None,
{
}

/// What a line says as a comment: for a line that, white space aside,
/// begins with `#`, what follows the `#` signs, white space aside.
pub open spec fn comment_text(line: Seq<char>) -> Option<Seq<char>> {
    let t = trimmed(line);
    if t.len() > 0 && t[0] == '#' {
        Some(trimmed(strip_leading(t, '#')))
    } else {
        None
    }
}

/// What the comment lines among `ls` say, in order.
pub open spec fn comment_parts(ls: Seq<Seq<char>>) -> Seq<Seq<char>>
    decreases ls.len(),
{
    if ls.len() == 0 {
        Seq::empty()
    } else {
        match comment_text(ls.last()) {
            Some(c) => comment_parts(ls.drop_last()).push(c),
            None => comment_parts(ls.drop_last()),
        }
    }
}

/// The comment that stands in `prefix`: what its comment lines say, with
/// a space between neighbours; none where it has no comment line.
pub open spec fn comment_of(prefix: Seq<char>) -> Option<Seq<char>> {
    let parts = comment_parts(lines(prefix));
    if parts.len() == 0 {
        None
    } else {
        Some(joined(parts, " "@))
    }
}

/// Reads the comment that stands in `prefix`, the text before a table of
/// the configuration file.
pub fn extract_comment(prefix: &str) -> (r: Option<String>)
    ensures
        opt_text(r) == comment_of(prefix@),
{
    let v = to_chars(prefix);
    let ls = split_lines(&v);
    let mut parts: Vec<String> = Vec::new();
    let mut i: usize = 0;
    assert(rows(ls@).take(0) =~= Seq::<Seq<char>>::empty());
    assert(texts(parts@) =~= Seq::<Seq<char>>::empty());
    while i < ls.len()
        invariant
            i <= ls.len(),
            texts(parts@) == comment_parts(rows(ls@).take(i as int)),
        decreases ls.len() - i,
    {
        proof {
            let now = rows(ls@).take(i + 1);
            assert(now.drop_last() =~= rows(ls@).take(i as int));
            assert(now.last() == ls@[i as int]@);
        }
        let t = trim_chars(&ls[i]);
        if t.len() > 0 && t[0] == '#' {
            let c = trim_chars(&strip_leading_chars(&t, '#'));
            let part = from_chars(&c);
            let ghost before = texts(parts@);
            parts.push(part);
            assert(texts(parts@) =~= before.push(part@));
        }
        i += 1;
    }
    assert(rows(ls@).take(ls@.len() as int) =~= rows(ls@));
    if parts.len() == 0 {
        None
    } else {
        Some(join(&parts, " "))
    }
}

impl Task {
    /// Gives a task without a description the comment that stands in
    /// `prefix`, the text before its table in the configuration file.
    pub fn describe_from_comment(&mut self, prefix: &str)
        ensures
            final(self)@ == (TaskView {
                description: if old(self)@.description is Some {
                    old(self)@.description
                } else {
                    comment_of(prefix@)
                },
                ..old(self)@
            }),
    {
        if self.description.is_none() {
            self.description = extract_comment(prefix);
        }
    }
}

impl ConfigErrorView {
    /// The name of the task at fault as it is shown: `name`, or `group:name`.
    pub open spec fn task_name(self) -> Seq<char> {
        match self {
            ConfigErrorView::InvalidGitHook { group: Some(g), task, hook } => g + ":"@ + task,
            ConfigErrorView::InvalidGitHook { group: None, task, hook } => task,
        }
    }

    /// The error in words.
    pub open spec fn message(self) -> Seq<char> {
        "Task \""@ + self.task_name() + "\" has invalid git_hook \""@ + self->hook
            + "\". Valid hooks: "@ + joined(git_hook_names(), ", "@)
    }
}

impl ConfigError {
    /// The error in words.
    pub fn message(&self) -> (r: String)
        ensures
            r@ == self@.message(),
    {
        let names = valid_git_hooks();
        let mut list: Vec<String> = Vec::new();
        let mut i: usize = 0;
        while i < names.len()
            invariant
                i <= names.len(),
                list@.len() == i,
                names@.len() == git_hook_names().len(),
                forall|j: int| 0 <= j < names@.len() ==> names@[j]@ == git_hook_names()[j],
                forall|j: int| 0 <= j < i ==> list@[j]@ == git_hook_names()[j],
            decreases names.len() - i,
        {
            list.push(names[i].to_owned());
            i += 1;
        }
        assert(texts(list@) =~= git_hook_names());
        match self {
            ConfigError::InvalidGitHook { group, task, hook } => {
                let mut r = "Task \"".to_owned();
                match group {
                    Some(g) => {
                        r.append(g.as_str());
                        r.append(":");
                        r.append(task.as_str());
                        assert(r@ =~= "Task \""@ + (g@ + ":"@ + task@));
                    },
                    None => {
                        r.append(task.as_str());
                    },
                }
                r.append("\" has invalid git_hook \"");
                r.append(hook.as_str());
                r.append("\". Valid hooks: ");
                r.append(join(&list, ", ").as_str());
                r
            },
        }
    }
}

} // verus!
