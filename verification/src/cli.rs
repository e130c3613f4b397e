//! What the command line offers: the help text, and how the words that the
//! user typed are read.

use crate::config::{PlzConfig, PlzConfigView, Task, TaskView};
use crate::names::NameMap;
use crate::order::{ascending, keep_marked, marked, ordered, sorted_keys};
use crate::text::{concat3, join, joined, opt_text, texts};
use crate::utils::{fuzzy, fuzzy_match};
use vstd::prelude::*;

verus! {

/// `n` spaces.
pub open spec fn spaces(n: int) -> Seq<char> {
    Seq::new(
        if n > 0 {
            n as nat
        } else {
            0
        },
        |i: int| ' ',
    )
}

/// Appends `n` spaces to `out`.
pub fn push_spaces(out: &mut String, n: usize)
    ensures
        final(out)@ == old(out)@ + spaces(n as int),
{
    let mut i: usize = 0;
    proof {
        reveal_strlit(" ");
    }
    assert(old(out)@ + spaces(0) =~= old(out)@);
    while i < n
        invariant
            i <= n,
            out@ == old(out)@ + spaces(i as int),
            " "@.len() == 1,
            " "@[0] == ' ',
        decreases n - i,
    {
        out.append(" ");
        assert(out@ =~= old(out)@ + spaces(i + 1));
        i += 1;
    }
}

/// One line of help: what to type and what it does.
#[derive(Clone, Copy, Debug)]
pub struct HelpEntry {
    pub usage: &'static str,
    pub description: &'static str,
}

/// The commands of the task runner itself, as `(usage, description)`.
pub open spec fn help_commands() -> Seq<(Seq<char>, Seq<char>)> {
    seq![
        ("init"@, "Create a plz.toml"@),
        ("add [name]"@, "Add a new task to plz.toml"@),
        ("hooks"@, "Install or manage git hooks"@),
        ("hooks add"@, "Add a git hook to existing tasks"@),
        ("schema"@, "Print JSON Schema for plz.toml"@),
        ("cheatsheet"@, "Print a cheatsheet of plz.toml features"@),
        ("update"@, "Update plz to the latest version"@),
        ("plz"@, "Manage global defaults"@),
    ]
}

/// The options of the command line, as `(usage, description)`.
pub open spec fn help_options() -> Seq<(Seq<char>, Seq<char>)> {
    seq![
        ("--no-interactive"@, "Disable interactive prompts (auto-detected in CI)"@),
        ("-h, --help"@, "Print help"@),
    ]
}

/// The views of a list of help entries.
pub open spec fn entries(v: Seq<HelpEntry>) -> Seq<(Seq<char>, Seq<char>)> {
    Seq::new(v.len(), |i: int| (v[i].usage@, v[i].description@))
}

/// The commands of the task runner itself.
pub fn commands() -> (r: Vec<HelpEntry>)
    ensures
        entries(r@) == help_commands(),
{
    let mut r: Vec<HelpEntry> = Vec::new();
    r.push(HelpEntry { usage: "init", description: "Create a plz.toml" });
    r.push(HelpEntry { usage: "add [name]", description: "Add a new task to plz.toml" });
    r.push(HelpEntry { usage: "hooks", description: "Install or manage git hooks" });
    r.push(HelpEntry { usage: "hooks add", description: "Add a git hook to existing tasks" });
    r.push(HelpEntry { usage: "schema", description: "Print JSON Schema for plz.toml" });
    r.push(
        HelpEntry { usage: "cheatsheet", description: "Print a cheatsheet of plz.toml features" },
    );
    r.push(HelpEntry { usage: "update", description: "Update plz to the latest version" });
    r.push(HelpEntry { usage: "plz", description: "Manage global defaults" });
    assert(entries(r@) =~= help_commands());
    r
}

/// The options of the command line.
pub fn options() -> (r: Vec<HelpEntry>)
    ensures
        entries(r@) == help_options(),
{
    let mut r: Vec<HelpEntry> = Vec::new();
    r.push(
        HelpEntry {
            usage: "--no-interactive",
            description: "Disable interactive prompts (auto-detected in CI)",
        },
    );
    r.push(HelpEntry { usage: "-h, --help", description: "Print help" });
    assert(entries(r@) =~= help_options());
    r
}

/// The length of the longest usage among the first `n` rows.
pub open spec fn widest(rows: Seq<(Seq<char>, Seq<char>)>, n: int) -> int
    decreases n,
{
    if n <= 0 {
        0
    } else {
        let before = widest(rows, n - 1);
        if rows[n - 1].0.len() > before {
            rows[n - 1].0.len() as int
        } else {
            before
        }
    }
}

/// The first `n` rows as lines: `lead`, the usage, spaces up to two past
/// `width`, the description, a line feed.
pub open spec fn table(
    rows: Seq<(Seq<char>, Seq<char>)>,
    lead: Seq<char>,
    width: int,
    n: int,
) -> Seq<char>
    decreases n,
{
    if n <= 0 {
        Seq::empty()
    } else {
        table(rows, lead, width, n - 1) + lead + rows[n - 1].0 + spaces(
            width - rows[n - 1].0.len() + 2,
        ) + rows[n - 1].1 + seq!['\n']
    }
}

/// The help text: how tasks are run, then the commands and the options,
/// each as a table whose descriptions stand in one column.
pub open spec fn help_text() -> Seq<char> {
    "\x1b[1mplz\x1b[0m [task] [args...]          Run a task from plz.toml\n\x1b[1mplz\x1b[0m [group] [task] [args...]  Run a task from a task group\n\x1b[1mplz\x1b[0m                           Choose a task interactively\n\n\x1b[2mCommands:\x1b[0m\n"@
        + table(
        help_commands(),
        "  \x1b[2mplz\x1b[0m "@,
        widest(help_commands(), help_commands().len() as int),
        help_commands().len() as int,
    ) + "\n\x1b[2mOptions:\x1b[0m\n"@ + table(
        help_options(),
        "  "@,
        widest(help_options(), help_options().len() as int),
        help_options().len() as int,
    )
}

fn width_of(rows: &Vec<HelpEntry>) -> (w: usize)
    ensures
        w == widest(entries(rows@), rows@.len() as int),
{
    let mut w: usize = 0;
    let mut i: usize = 0;
    while i < rows.len()
        invariant
            i <= rows.len(),
            w == widest(entries(rows@), i as int),
        decreases rows.len() - i,
    {
        let n = rows[i].usage.unicode_len();
        if n > w {
            w = n;
        }
        i += 1;
    }
    w
}

proof fn lemma_widest_bounds(rows: Seq<(Seq<char>, Seq<char>)>, n: int, i: int)
    requires
        0 <= i < n <= rows.len(),
    ensures
        rows[i].0.len() <= widest(rows, n),
    decreases n,
{
    if i < n - 1 {
        lemma_widest_bounds(rows, n - 1, i);
    }
}

fn push_table(out: &mut String, rows: &Vec<HelpEntry>, lead: &str)
    ensures
        final(out)@ == old(out)@ + table(
            entries(rows@),
            lead@,
            widest(entries(rows@), rows@.len() as int),
            rows@.len() as int,
        ),
{
    let width = width_of(rows);
    let mut i: usize = 0;
    assert(old(out)@ + Seq::<char>::empty() =~= old(out)@);
    proof {
        reveal_strlit("\n");
    }
    while i < rows.len()
        invariant
            i <= rows.len(),
            width == widest(entries(rows@), rows@.len() as int),
            out@ == old(out)@ + table(entries(rows@), lead@, width as int, i as int),
            "\n"@.len() == 1,
            "\n"@[0] == '\n',
        decreases rows.len() - i,
    {
        let ghost before = out@;
        let n = rows[i].usage.unicode_len();
        proof {
            lemma_widest_bounds(entries(rows@), rows@.len() as int, i as int);
        }
        out.append(lead);
        out.append(rows[i].usage);
        push_spaces(out, width - n);
        push_spaces(out, 2);
        out.append(rows[i].description);
        out.append("\n");
        proof {
            assert(spaces(width - n) + spaces(2) =~= spaces(width - n + 2));
            assert("\n"@ =~= seq!['\n']);
            assert(out@ =~= old(out)@ + table(entries(rows@), lead@, width as int, i + 1));
        }
        i += 1;
    }
}

/// The help text of the task runner.
pub fn format_help() -> (r: String)
    ensures
        r@ == help_text(),
{
    let mut r = "\x1b[1mplz\x1b[0m [task] [args...]          Run a task from plz.toml\n\x1b[1mplz\x1b[0m [group] [task] [args...]  Run a task from a task group\n\x1b[1mplz\x1b[0m                           Choose a task interactively\n\n\x1b[2mCommands:\x1b[0m\n".to_owned();
    let cs = commands();
    push_table(&mut r, &cs, "  \x1b[2mplz\x1b[0m ");
    r.append("\n\x1b[2mOptions:\x1b[0m\n");
    let os = options();
    push_table(&mut r, &os, "  ");
    r
}

/// Why nobody is asked anything.
#[derive(Clone, Copy, Debug, PartialEq, Eq, Structural)]
pub enum Silence {
    /// The user said so on the command line.
    Flag,
    /// A task of another run of the task runner is running this one.
    Nested,
    /// The task runner runs in continuous integration.
    Ci,
    /// The input is no terminal.
    NoTerminal,
}

/// Whether the user may be asked, and if not, why not: the flag counts
/// first, then nesting, then continuous integration, then the terminal.
pub fn is_interactive(no_interactive: bool, nested: bool, ci: bool, terminal: bool) -> (r: Result<
    (),
    Silence,
>)
    ensures
        r == (if no_interactive {
            Err::<(), Silence>(Silence::Flag)
        } else if nested {
            Err(Silence::Nested)
        } else if ci {
            Err(Silence::Ci)
        } else if !terminal {
            Err(Silence::NoTerminal)
        } else {
            Ok(())
        }),
{
    if no_interactive {
        Err(Silence::Flag)
    } else if nested {
        Err(Silence::Nested)
    } else if ci {
        Err(Silence::Ci)
    } else if !terminal {
        Err(Silence::NoTerminal)
    } else {
        Ok(())
    }
}

impl Silence {
    /// What the user is told about it, if anything.
    pub fn notice(&self) -> (r: Option<&'static str>)
        ensures
            match *self {
                Silence::Ci => r is Some && r->0@
                    == "Skipping interactive prompts: CI environment detected"@,
                Silence::NoTerminal => r is Some && r->0@
                    == "Skipping interactive prompts: stdin is not a terminal"@,
                _ => r is None,
            },
    {
        match self {
            Silence::Ci => Some("Skipping interactive prompts: CI environment detected"),
            Silence::NoTerminal => Some("Skipping interactive prompts: stdin is not a terminal"),
            _ => None,
        }
    }
}

/// The task that the words on the command line name.
#[derive(Debug)]
pub enum ResolvedTask {
    /// A top-level task.
    Task(String),
    /// A task of a group: the group's name, then the task's.
    GroupTask(String, String),
}

pub enum ResolvedTaskView {
    Task(Seq<char>),
    GroupTask(Seq<char>, Seq<char>),
}

impl View for ResolvedTask {
    type V = ResolvedTaskView;

    open spec fn view(&self) -> ResolvedTaskView {
        match *self {
            ResolvedTask::Task(n) => ResolvedTaskView::Task(n@),
            ResolvedTask::GroupTask(g, n) => ResolvedTaskView::GroupTask(g@, n@),
        }
    }
}

/// Why the words on the command line name no task.
#[derive(Debug)]
pub enum CliError {
    /// No task has this name; `group` is set where a group was searched.
    NotATask { group: Option<String>, name: String },
    /// A group was named but none of its tasks, which are `available`.
    NoTaskSpecified { group: String, available: Vec<String> },
    /// The group that was named has no tasks.
    NoTasksInGroup { group: String },
    /// The configuration has no tasks.
    NoTasksDefined,
    /// The user gave up.
    Cancelled,
}

pub enum CliErrorView {
    NotATask { group: Option<Seq<char>>, name: Seq<char> },
    NoTaskSpecified { group: Seq<char>, available: Seq<Seq<char>> },
    NoTasksInGroup { group: Seq<char> },
    NoTasksDefined,
    Cancelled,
}

impl View for CliError {
    type V = CliErrorView;

    open spec fn view(&self) -> CliErrorView {
        match *self {
            CliError::NotATask { group, name } => CliErrorView::NotATask {
                group: opt_text(group),
                name: name@,
            },
            CliError::NoTaskSpecified { group, available } => CliErrorView::NoTaskSpecified {
                group: group@,
                available: texts(available@),
            },
            CliError::NoTasksInGroup { group } => CliErrorView::NoTasksInGroup { group: group@ },
            CliError::NoTasksDefined => CliErrorView::NoTasksDefined,
            CliError::Cancelled => CliErrorView::Cancelled,
        }
    }
}

impl CliErrorView {
    /// The error in words.
    pub open spec fn message(self) -> Seq<char> {
        match self {
            CliErrorView::NotATask { group: None, name } => "\""@ + name
                + "\" isn't a task. Run `plz` to see all commands."@,
            CliErrorView::NotATask { group: Some(g), name } => "\""@ + g + ":"@ + name
                + "\" isn't a task. Run `plz "@ + g + "` to see group tasks."@,
            CliErrorView::NoTaskSpecified { group, available } => "No task specified for group \""@
                + group + "\". Available tasks: "@ + joined(available, ", "@),
            CliErrorView::NoTasksInGroup { group } => "No tasks defined in group \""@ + group
                + "\""@,
            CliErrorView::NoTasksDefined => "No tasks defined in plz.toml"@,
            CliErrorView::Cancelled => "Cancelled"@,
        }
    }
}

impl CliError {
    /// The error in words.
    pub fn message(&self) -> (r: String)
        ensures
            r@ == self@.message(),
    {
        match self {
            CliError::NotATask { group: None, name } => concat3(
                "\"",
                name.as_str(),
                "\" isn't a task. Run `plz` to see all commands.",
            ),
            CliError::NotATask { group: Some(g), name } => {
                let mut r = concat3("\"", g.as_str(), ":");
                r.append(name.as_str());
                r.append("\" isn't a task. Run `plz ");
                r.append(g.as_str());
                r.append("` to see group tasks.");
                r
            },
            CliError::NoTaskSpecified { group, available } => {
                let mut r = concat3(
                    "No task specified for group \"",
                    group.as_str(),
                    "\". Available tasks: ",
                );
                r.append(join(available, ", ").as_str());
                r
            },
            CliError::NoTasksInGroup { group } => concat3(
                "No tasks defined in group \"",
                group.as_str(),
                "\"",
            ),
            CliError::NoTasksDefined => "No tasks defined in plz.toml".to_owned(),
            CliError::Cancelled => "Cancelled".to_owned(),
        }
    }
}

/// What is to be done about the words on the command line.
#[derive(Debug)]
pub enum Resolution {
    /// They name the task given here.
    Resolved(ResolvedTask),
    /// They name no task.
    Failed(CliError),
    /// The user picks one of `names`, the tasks of `group` or the
    /// top-level tasks, shown with `descriptions`. `missed` is what was
    /// typed where it matched nothing.
    Pick { group: Option<String>, names: Vec<String>, descriptions: Vec<String>, missed: Option<String> },
    /// The user is asked whether the task `name` was meant.
    Confirm { group: Option<String>, name: String },
    /// The user chooses which of `names` was meant.
    Select { group: Option<String>, names: Vec<String> },
}

pub enum ResolutionView {
    Resolved(ResolvedTaskView),
    Failed(CliErrorView),
    Pick {
        group: Option<Seq<char>>,
        names: Seq<Seq<char>>,
        descriptions: Seq<Seq<char>>,
        missed: Option<Seq<char>>,
    },
    Confirm { group: Option<Seq<char>>, name: Seq<char> },
    Select { group: Option<Seq<char>>, names: Seq<Seq<char>> },
}

impl View for Resolution {
    type V = ResolutionView;

    open spec fn view(&self) -> ResolutionView {
        match *self {
            Resolution::Resolved(t) => ResolutionView::Resolved(t@),
            Resolution::Failed(e) => ResolutionView::Failed(e@),
            Resolution::Pick { group, names, descriptions, missed } => ResolutionView::Pick {
                group: opt_text(group),
                names: texts(names@),
                descriptions: texts(descriptions@),
                missed: opt_text(missed),
            },
            Resolution::Confirm { group, name } => ResolutionView::Confirm {
                group: opt_text(group),
                name: name@,
            },
            Resolution::Select { group, names } => ResolutionView::Select {
                group: opt_text(group),
                names: texts(names@),
            },
        }
    }
}

/// The names of the tasks of `tasks` that match `query`.
pub open spec fn matches_in(tasks: Map<Seq<char>, TaskView>, query: Seq<char>) -> Set<Seq<char>> {
    Set::new(|k: Seq<char>| tasks.dom().contains(k) && fuzzy(query, k))
}

/// The descriptions of the tasks `names` of `tasks`, empty where a task
/// has none.
pub open spec fn described(tasks: Map<Seq<char>, TaskView>, names: Seq<Seq<char>>) -> Seq<
    Seq<char>,
> {
    Seq::new(
        names.len(),
        |i: int|
            match tasks[names[i]].description {
                Some(d) => d,
                None => Seq::empty(),
            },
    )
}

/// What is to be done where `query` is the name of no task of `tasks`
/// and there is a user to ask: with one task that matches, the user is
/// asked whether it was meant; with several, which of them; with none,
/// `otherwise` is due.
pub open spec fn guess(
    group: Option<Seq<char>>,
    tasks: Map<Seq<char>, TaskView>,
    query: Seq<char>,
    otherwise: ResolutionView,
) -> ResolutionView {
    let found = ordered(matches_in(tasks, query));
    if found.len() == 0 {
        otherwise
    } else if found.len() == 1 {
        ResolutionView::Confirm { group, name: found[0] }
    } else {
        ResolutionView::Select { group, names: found }
    }
}

/// What is to be done about the word `input` and the words `rest` after
/// it. A top-level task of that name wins. Else `input` may name a
/// group: the first word of `rest` then names a task of it, and without
/// that word the user picks one. Else the name is guessed at among the
/// top-level tasks. Where nobody can be asked, what is not an exact name
/// is an error.
pub open spec fn resolution(
    config: PlzConfigView,
    input: Seq<char>,
    rest: Seq<Seq<char>>,
    interactive: bool,
) -> ResolutionView {
    if config.tasks.dom().contains(input) {
        ResolutionView::Resolved(ResolvedTaskView::Task(input))
    } else {
        match config.group(input) {
            Some(g) => {
                if rest.len() == 0 {
                    let names = ordered(g.tasks.dom());
                    if !interactive {
                        ResolutionView::Failed(
                            CliErrorView::NoTaskSpecified { group: input, available: names },
                        )
                    } else if names.len() == 0 {
                        ResolutionView::Failed(CliErrorView::NoTasksInGroup { group: input })
                    } else {
                        ResolutionView::Pick {
                            group: Some(input),
                            names,
                            descriptions: described(g.tasks, names),
                            missed: None,
                        }
                    }
                } else if g.tasks.dom().contains(rest[0]) {
                    ResolutionView::Resolved(ResolvedTaskView::GroupTask(input, rest[0]))
                } else {
                    let unknown = ResolutionView::Failed(
                        CliErrorView::NotATask { group: Some(input), name: rest[0] },
                    );
                    if !interactive {
                        unknown
                    } else {
                        guess(Some(input), g.tasks, rest[0], unknown)
                    }
                }
            },
            None => {
                if !interactive {
                    ResolutionView::Failed(CliErrorView::NotATask { group: None, name: input })
                } else {
                    let names = ordered(config.tasks.dom());
                    guess(
                        None,
                        config.tasks,
                        input,
                        if names.len() == 0 {
                            ResolutionView::Failed(CliErrorView::NoTasksDefined)
                        } else {
                            ResolutionView::Pick {
                                group: None,
                                names,
                                descriptions: described(config.tasks, names),
                                missed: Some(input),
                            }
                        },
                    )
                }
            },
        }
    }
}

fn clone_text(o: Option<&str>) -> (r: Option<String>)
    ensures
        opt_text(r) == match o {
            Some(s) => Some(s@),
            None => None,
        },
{
    match o {
        Some(s) => Some(s.to_owned()),
        None => None,
    }
}

fn descriptions_of(tasks: &NameMap<Task>, names: &Vec<String>) -> (r: Vec<String>)
    requires
        forall|i: int| 0 <= i < names@.len() ==> tasks@.dom().contains(#[trigger] names@[i]@),
    ensures
        texts(r@) == described(tasks@, texts(names@)),
{
    let mut r: Vec<String> = Vec::new();
    let mut i: usize = 0;
    while i < names.len()
        invariant
            i <= names.len(),
            r@.len() == i,
            forall|j: int| 0 <= j < names@.len() ==> tasks@.dom().contains(#[trigger] names@[j]@),
            forall|j: int| 0 <= j < i ==> r@[j]@ == described(tasks@, texts(names@))[j],
        decreases names.len() - i,
    {
        assert(tasks@.dom().contains(names@[i as int]@));
        let d = match tasks.get(names[i].as_str()) {
            Some(t) => match &t.description {
                Some(d) => d.clone(),
                None => String::new(),
            },
            None => String::new(),
        };
        r.push(d);
        i += 1;
    }
    assert(texts(r@) =~= described(tasks@, texts(names@)));
    r
}

fn matching(tasks: &NameMap<Task>, query: &str) -> (r: Vec<String>)
    ensures
        texts(r@) == ordered(matches_in(tasks@, query@)),
{
    let keys = sorted_keys(tasks);
    let mut marks: Vec<bool> = Vec::new();
    let mut i: usize = 0;
    while i < keys.len()
        invariant
            i <= keys.len(),
            marks@.len() == i,
            forall|j: int| 0 <= j < i ==> marks@[j] == fuzzy(query@, #[trigger] texts(keys@)[j]),
        decreases keys.len() - i,
    {
        marks.push(fuzzy_match(query, keys[i].as_str()));
        i += 1;
    }
    let r = keep_marked(&keys, &marks);
    proof {
        let ks = texts(keys@);
        assert forall|x: Seq<char>| marked(ks, marks@).contains(x) <==> matches_in(
            tasks@,
            query@,
        ).contains(x) by {
            if marked(ks, marks@).contains(x) {
                let j = choose|j: int|
                    0 <= j < ks.len() && j < marks@.len() && ks[j] == x && marks@[j];
                assert(ks.to_set().contains(ks[j]));
            }
            if matches_in(tasks@, query@).contains(x) {
                assert(ks.to_set().contains(x));
                let j = choose|j: int| 0 <= j < ks.len() && ks[j] == x;
                assert(marks@[j]);
            }
        }
        assert(marked(ks, marks@) =~= matches_in(tasks@, query@));
    }
    r
}

fn guess_among(group: Option<&str>, tasks: &NameMap<Task>, query: &str, otherwise: Resolution) -> (r:
    Resolution)
    ensures
        r@ == guess(
            match group {
                Some(g) => Some(g@),
                None => None,
            },
            tasks@,
            query@,
            otherwise@,
        ),
{
    let mut found = matching(tasks, query);
    if found.len() == 0 {
        otherwise
    } else if found.len() == 1 {
        let ghost all = texts(found@);
        let name = found.remove(0);
        assert(name@ == all[0]);
        Resolution::Confirm { group: clone_text(group), name }
    } else {
        Resolution::Select { group: clone_text(group), names: found }
    }
}

/// Decides what is to be done about the word `input` and the words
/// `rest` after it.
pub fn resolve_task(config: &PlzConfig, input: &str, rest: &Vec<String>, interactive: bool) -> (r:
    Resolution)
    ensures
        r@ == resolution(config@, input@, texts(rest@), interactive),
{
    if config.tasks.contains_key(input) {
        return Resolution::Resolved(ResolvedTask::Task(input.to_owned()));
    }
    match config.get_group(input) {
        Some(g) => {
            if rest.len() == 0 {
                let names = sorted_keys(&g.tasks);
                if !interactive {
                    Resolution::Failed(
                        CliError::NoTaskSpecified { group: input.to_owned(), available: names },
                    )
                } else if names.len() == 0 {
                    Resolution::Failed(CliError::NoTasksInGroup { group: input.to_owned() })
                } else {
                    proof {
                        assert forall|i: int| 0 <= i < names@.len() implies g.tasks@.dom().contains(
                            #[trigger] names@[i]@,
                        ) by {
                            assert(texts(names@)[i] == names@[i]@);
                            assert(texts(names@).to_set().contains(texts(names@)[i]));
                        }
                    }
                    let descriptions = descriptions_of(&g.tasks, &names);
                    Resolution::Pick {
                        group: Some(input.to_owned()),
                        names,
                        descriptions,
                        missed: None,
                    }
                }
            } else if g.tasks.contains_key(rest[0].as_str()) {
                Resolution::Resolved(
                    ResolvedTask::GroupTask(input.to_owned(), rest[0].clone()),
                )
            } else {
                let unknown = Resolution::Failed(
                    CliError::NotATask { group: Some(input.to_owned()), name: rest[0].clone() },
                );
                if !interactive {
                    unknown
                } else {
                    guess_among(Some(input), &g.tasks, rest[0].as_str(), unknown)
                }
            }
        },
        None => {
            if !interactive {
                Resolution::Failed(CliError::NotATask { group: None, name: input.to_owned() })
            } else {
                let names = sorted_keys(&config.tasks);
                let otherwise = if names.len() == 0 {
                    Resolution::Failed(CliError::NoTasksDefined)
                } else {
                    proof {
                        assert forall|i: int|
                            0 <= i < names@.len() implies config.tasks@.dom().contains(
                            #[trigger] names@[i]@,
                        ) by {
                            assert(texts(names@)[i] == names@[i]@);
                            assert(texts(names@).to_set().contains(texts(names@)[i]));
                        }
                    }
                    let descriptions = descriptions_of(&config.tasks, &names);
                    Resolution::Pick {
                        group: None,
                        names,
                        descriptions,
                        missed: Some(input.to_owned()),
                    }
                };
                guess_among(None, &config.tasks, input, otherwise)
            }
        },
    }
}

/// What the user gave back.
#[derive(Debug)]
pub enum Reply {
    /// The position that was picked or chosen; none where the user gave up.
    Chosen(Option<usize>),
    /// The answer to a yes-or-no question.
    Confirmed(bool),
}

/// The task `name`, of `group` where one is given.
pub open spec fn task_in(group: Option<Seq<char>>, name: Seq<char>) -> ResolvedTaskView {
    match group {
        Some(g) => ResolvedTaskView::GroupTask(g, name),
        None => ResolvedTaskView::Task(name),
    }
}

/// What comes of a resolution once the user has given `reply`: the task
/// that was picked, confirmed or chosen. Who gives up, says no, or gives
/// no fitting reply, has cancelled.
pub open spec fn outcome(resolution: ResolutionView, reply: Reply) -> Result<
    ResolvedTaskView,
    CliErrorView,
> {
    match resolution {
        ResolutionView::Resolved(t) => Ok(t),
        ResolutionView::Failed(e) => Err(e),
        ResolutionView::Pick { group, names, descriptions, missed } => match reply {
            Reply::Chosen(Some(i)) => if i < names.len() {
                Ok(task_in(group, names[i as int]))
            } else {
                Err(CliErrorView::Cancelled)
            },
            _ => Err(CliErrorView::Cancelled),
        },
        ResolutionView::Confirm { group, name } => match reply {
            Reply::Confirmed(true) => Ok(task_in(group, name)),
            _ => Err(CliErrorView::Cancelled),
        },
        ResolutionView::Select { group, names } => match reply {
            Reply::Chosen(Some(i)) => if i < names.len() {
                Ok(task_in(group, names[i as int]))
            } else {
                Err(CliErrorView::Cancelled)
            },
            _ => Err(CliErrorView::Cancelled),
        },
    }
}

fn named(group: Option<String>, name: String) -> (r: ResolvedTask)
    ensures
        r@ == task_in(opt_text(group), name@),
{
    match group {
        Some(g) => ResolvedTask::GroupTask(g, name),
        None => ResolvedTask::Task(name),
    }
}

/// Concludes a resolution with the user's reply.
pub fn conclude(resolution: Resolution, reply: Reply) -> (r: Result<ResolvedTask, CliError>)
    ensures
        match r {
            Ok(t) => outcome(resolution@, reply) == Ok::<ResolvedTaskView, CliErrorView>(t@),
            Err(e) => outcome(resolution@, reply) == Err::<ResolvedTaskView, CliErrorView>(e@),
        },
{
    match resolution {
        Resolution::Resolved(t) => Ok(t),
        Resolution::Failed(e) => Err(e),
        Resolution::Pick { group, names, descriptions, missed } => match reply {
            Reply::Chosen(Some(i)) => {
                if i < names.len() {
                    Ok(named(group, names[i].clone()))
                } else {
                    Err(CliError::Cancelled)
                }
            },
            _ => Err(CliError::Cancelled),
        },
        Resolution::Confirm { group, name } => match reply {
            Reply::Confirmed(true) => Ok(named(group, name)),
            _ => Err(CliError::Cancelled),
        },
        Resolution::Select { group, names } => match reply {
            Reply::Chosen(Some(i)) => {
                if i < names.len() {
                    Ok(named(group, names[i].clone()))
                } else {
                    Err(CliError::Cancelled)
                }
            },
            _ => Err(CliError::Cancelled),
        },
    }
}

/// An entry of the list of all tasks: how it is shown, and the task
/// that it stands for.
#[derive(Debug)]
pub struct MenuEntry {
    pub label: String,
    pub description: String,
    pub task: ResolvedTask,
}

pub struct MenuEntryView {
    pub label: Seq<char>,
    pub description: Seq<char>,
    pub task: ResolvedTaskView,
}

impl View for MenuEntry {
    type V = MenuEntryView;

    open spec fn view(&self) -> MenuEntryView {
        MenuEntryView { label: self.label@, description: self.description@, task: self.task@ }
    }
}

/// The views of a list of entries.
pub open spec fn menu_entries(v: Seq<MenuEntry>) -> Seq<MenuEntryView> {
    Seq::new(v.len(), |i: int| v[i]@)
}

/// The description of a task, empty where it has none.
pub open spec fn description_of(task: TaskView) -> Seq<char> {
    match task.description {
        Some(d) => d,
        None => Seq::empty(),
    }
}

/// The entries for the tasks `names` of `tasks`, which are top-level
/// tasks, or tasks of `group` and then shown as `group:task`.
pub open spec fn entries_for(
    group: Option<Seq<char>>,
    tasks: Map<Seq<char>, TaskView>,
    names: Seq<Seq<char>>,
) -> Seq<MenuEntryView> {
    Seq::new(
        names.len(),
        |i: int|
            MenuEntryView {
                label: match group {
                    Some(g) => g + seq![':'] + names[i],
                    None => names[i],
                },
                description: description_of(tasks[names[i]]),
                task: task_in(group, names[i]),
            },
    )
}

/// The entries for the tasks of the first `n` of the groups `order`,
/// group by group, within a group in ascending order.
pub open spec fn group_menu(
    groups: Map<Seq<char>, crate::config::TaskGroupView>,
    order: Seq<Seq<char>>,
    n: int,
) -> Seq<MenuEntryView>
    decreases n,
{
    if n <= 0 {
        Seq::empty()
    } else {
        group_menu(groups, order, n - 1) + entries_for(
            Some(order[n - 1]),
            groups[order[n - 1]].tasks,
            ordered(groups[order[n - 1]].tasks.dom()),
        )
    }
}

/// The list of all tasks: the top-level tasks in ascending order, then
/// the tasks of the groups, the groups in ascending order.
pub open spec fn menu(config: PlzConfigView) -> Seq<MenuEntryView> {
    entries_for(None, config.tasks, ordered(config.tasks.dom())) + match config.taskgroup {
        Some(groups) => group_menu(
            groups,
            ordered(groups.dom()),
            ordered(groups.dom()).len() as int,
        ),
        None => Seq::empty(),
    }
}

fn push_entries(out: &mut Vec<MenuEntry>, group: Option<&str>, tasks: &NameMap<Task>)
    ensures
        menu_entries(final(out)@) == menu_entries(old(out)@) + entries_for(
            match group {
                Some(g) => Some(g@),
                None => None,
            },
            tasks@,
            ordered(tasks@.dom()),
        ),
{
    let names = sorted_keys(tasks);
    let ghost g = match group {
        Some(g) => Some(g@),
        None => None,
    };
    let ghost before = menu_entries(out@);
    let ghost all = entries_for(g, tasks@, texts(names@));
    let mut i: usize = 0;
    assert(before + all.take(0) =~= before);
    while i < names.len()
        invariant
            i <= names.len(),
            g == (match group {
                Some(g) => Some(g@),
                None => None,
            }),
            all == entries_for(g, tasks@, texts(names@)),
            texts(names@).to_set() == tasks@.dom(),
            menu_entries(out@) == before + all.take(i as int),
        decreases names.len() - i,
    {
        proof {
            reveal_strlit(":");
            assert(":"@ =~= seq![':']);
            assert(texts(names@).to_set().contains(texts(names@)[i as int]));
        }
        let name = names[i].as_str();
        let description = match tasks.get(name) {
            Some(t) => match &t.description {
                Some(d) => d.clone(),
                None => String::new(),
            },
            None => String::new(),
        };
        let entry = match group {
            Some(gname) => MenuEntry {
                label: concat3(gname, ":", name),
                description,
                task: ResolvedTask::GroupTask(gname.to_owned(), name.to_owned()),
            },
            None => MenuEntry {
                label: name.to_owned(),
                description,
                task: ResolvedTask::Task(name.to_owned()),
            },
        };
        let ghost so_far = menu_entries(out@);
        out.push(entry);
        proof {
            assert(entry@ == all[i as int]);
            assert(menu_entries(out@) =~= so_far.push(entry@));
            assert(all.take(i + 1) =~= all.take(i as int).push(all[i as int]));
            assert(before + all.take(i as int).push(all[i as int]) =~= so_far.push(entry@));
        }
        i += 1;
    }
    assert(all.take(all.len() as int) =~= all);
}

/// Lists all tasks for the user to pick from.
pub fn task_menu(config: &PlzConfig) -> (r: Vec<MenuEntry>)
    ensures
        menu_entries(r@) == menu(config@),
{
    let mut r: Vec<MenuEntry> = Vec::new();
    assert(menu_entries(r@) =~= Seq::<MenuEntryView>::empty());
    push_entries(&mut r, None, &config.tasks);
    let ghost top = menu_entries(r@);
    assert(top =~= entries_for(None, config@.tasks, ordered(config@.tasks.dom())));
    match &config.taskgroup {
        Some(groups) => {
            let order = sorted_keys(groups);
            let mut g: usize = 0;
            assert(top + Seq::<MenuEntryView>::empty() =~= top);
            while g < order.len()
                invariant
                    g <= order.len(),
                    texts(order@).to_set() == groups@.dom(),
                    menu_entries(r@) == top + group_menu(groups@, texts(order@), g as int),
                decreases order.len() - g,
            {
                assert(texts(order@).to_set().contains(texts(order@)[g as int]));
                let ghost before = menu_entries(r@);
                match groups.get(order[g].as_str()) {
                    Some(group) => {
                        push_entries(&mut r, Some(order[g].as_str()), &group.tasks);
                        proof {
                            let added = entries_for(
                                Some(texts(order@)[g as int]),
                                groups@[texts(order@)[g as int]].tasks,
                                ordered(groups@[texts(order@)[g as int]].tasks.dom()),
                            );
                            assert(top + (group_menu(groups@, texts(order@), g as int) + added)
                                =~= before + added);
                        }
                    },
                    None => {},
                }
                g += 1;
            }
        },
        None => {
            assert(top + Seq::<MenuEntryView>::empty() =~= top);
        },
    }
    r
}

/// A command of the task runner itself that is typed like a task.
#[derive(Clone, Copy, Debug, PartialEq, Eq, Structural)]
pub enum Builtin {
    Init,
    Add,
    Schema,
    Cheatsheet,
    Update,
    Help,
    HooksInstall,
    HooksUninstall,
    HooksAdd,
    /// `hooks` alone, or with a word that names no command of its own.
    Hooks,
}

/// The command of the task runner itself that `first` names; `second`
/// is the word after it, if there is one.
pub open spec fn builtin_of(first: Seq<char>, second: Option<Seq<char>>) -> Option<Builtin> {
    if first == "init"@ {
        Some(Builtin::Init)
    } else if first == "add"@ {
        Some(Builtin::Add)
    } else if first == "schema"@ {
        Some(Builtin::Schema)
    } else if first == "cheatsheet"@ {
        Some(Builtin::Cheatsheet)
    } else if first == "update"@ {
        Some(Builtin::Update)
    } else if first == "help"@ {
        Some(Builtin::Help)
    } else if first == "hooks"@ {
        if second == Some("install"@) {
            Some(Builtin::HooksInstall)
        } else if second == Some("uninstall"@) {
            Some(Builtin::HooksUninstall)
        } else if second == Some("add"@) {
            Some(Builtin::HooksAdd)
        } else {
            Some(Builtin::Hooks)
        }
    } else {
        None
    }
}

fn is_word(word: Option<&str>, expected: &str) -> (r: bool)
    ensures
        r == (match word {
            Some(w) => w@ == expected@,
            None => false,
        }),
{
    match word {
        Some(w) => crate::text::same_text(w, expected),
        None => false,
    }
}

/// Reads the words of the command line as a command of the task runner
/// itself.
pub fn builtin(first: &str, second: Option<&str>) -> (r: Option<Builtin>)
    ensures
        r == builtin_of(
            first@,
            match second {
                Some(w) => Some(w@),
                None => None,
            },
        ),
{
    let first = Some(first);
    if is_word(first, "init") {
        Some(Builtin::Init)
    } else if is_word(first, "add") {
        Some(Builtin::Add)
    } else if is_word(first, "schema") {
        Some(Builtin::Schema)
    } else if is_word(first, "cheatsheet") {
        Some(Builtin::Cheatsheet)
    } else if is_word(first, "update") {
        Some(Builtin::Update)
    } else if is_word(first, "help") {
        Some(Builtin::Help)
    } else if is_word(first, "hooks") {
        if is_word(second, "install") {
            Some(Builtin::HooksInstall)
        } else if is_word(second, "uninstall") {
            Some(Builtin::HooksUninstall)
        } else if is_word(second, "add") {
            Some(Builtin::HooksAdd)
        } else {
            Some(Builtin::Hooks)
        }
    } else {
        None
    }
}

} // verus!
