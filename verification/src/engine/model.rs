//! The model of a run: what a step is, stated over the views of the
//! machine's data.

use crate::config::{FailHookView, PlzConfigView, TaskView};
use crate::engine::shell::{command_line, work_dir};
use crate::runner::{opt_error, parse_ref, RunError, RunErrorView, TaskRef, TaskRefView, wrapped};
use crate::text::{opt_text, split_first};
use vstd::prelude::*;

verus! {

/// Where a position of a frame stands in the life of its task.
#[derive(Clone, Copy, Debug, PartialEq, Eq, Structural)]
pub enum Stage {
    /// Nothing has been done yet.
    Fresh,
    /// The single command is running in the shell.
    RunShell,
    /// The task that the single command points to is running.
    RunCall,
    /// About to take up the next command of the serial list.
    SerialAt,
    /// A command of the serial list is running in the shell.
    SerialShell,
    /// A task that the serial list points to is running.
    SerialCall,
    /// About to start the next plain command of the parallel list.
    SpawnAt,
    /// A plain command of the parallel list is being started.
    Spawning,
    /// About to take up the next reference of the parallel list.
    CallAt,
    /// A task that the parallel list points to is running.
    Calling,
    /// About to wait for the next command that was started.
    WaitAt,
    /// Waiting for a command that was started.
    Waiting,
    /// About to take up the next failure of a block.
    ReplayAt,
    /// The fail hook command of a failed task of a block is running.
    ReplayShell,
    /// The user is asked whether to run what a failed task of a block suggests.
    ReplayAsk,
    /// What a failed task of a block suggests is running.
    ReplayFix,
    /// A failure of a block was left unresolved.
    ReplayNext,
    /// The user is asked whether to go on to the next failure.
    ReplayContinue,
    /// The task's own phases have ended in a failure.
    Failing,
    /// The task's own fail hook command is running.
    HookShell,
    /// The user is asked whether to run what the task's own fail hook suggests.
    HookAsk,
    /// What the task's own fail hook suggests is running.
    HookFix,
    /// The task is over.
    Finished,
}

/// How one command or task of a block ended.
#[derive(Debug)]
pub struct Outcome {
    /// The task's display name, or the text of the command.
    pub name: String,
    /// The failure, if it failed.
    pub error: Option<RunError>,
}

pub struct OutcomeView {
    pub name: Seq<char>,
    pub error: Option<RunErrorView>,
}

impl View for Outcome {
    type V = OutcomeView;

    open spec fn view(&self) -> OutcomeView {
        OutcomeView { name: self.name@, error: opt_error(self.error) }
    }
}

impl Clone for Outcome {
    fn clone(&self) -> (r: Self)
        ensures
            r@ == self@,
    {
        Outcome {
            name: self.name.clone(),
            error: match &self.error {
                Some(e) => Some(e.clone()),
                None => None,
            },
        }
    }
}

/// A failure of a block whose handling was put off to the end of the block.
#[derive(Debug)]
pub struct Failure {
    /// The task's display name, or the text of the command.
    pub name: String,
    /// Why it failed.
    pub error: RunError,
}

pub struct FailureView {
    pub name: Seq<char>,
    pub error: RunErrorView,
}

impl View for Failure {
    type V = FailureView;

    open spec fn view(&self) -> FailureView {
        FailureView { name: self.name@, error: self.error@ }
    }
}

/// The views of a list of failures.
pub open spec fn failure_views(v: Seq<Failure>) -> Seq<FailureView> {
    Seq::new(v.len(), |i: int| v[i]@)
}

/// A command that was started and not yet waited for.
#[derive(Debug)]
pub struct Child {
    /// The text of the command.
    pub command: String,
    /// The host's handle for the process.
    pub id: u64,
}

pub struct ChildView {
    pub command: Seq<char>,
    pub id: u64,
}

impl View for Child {
    type V = ChildView;

    open spec fn view(&self) -> ChildView {
        ChildView { command: self.command@, id: self.id }
    }
}

/// The views of a list of outcomes.
pub open spec fn outcomes(v: Seq<Outcome>) -> Seq<OutcomeView> {
    Seq::new(v.len(), |i: int| v[i]@)
}

/// The views of a list of children.
pub open spec fn children(v: Seq<Child>) -> Seq<ChildView> {
    Seq::new(v.len(), |i: int| v[i]@)
}

/// The views of a list of references.
pub open spec fn references(v: Seq<TaskRef>) -> Seq<TaskRefView> {
    Seq::new(v.len(), |i: int| v[i]@)
}

/// What is told to the user in the course of a run.
#[derive(Debug)]
pub enum Notice {
    /// A task has failed. `name` is set for a task of a block that has no
    /// fail hook.
    TaskFailed { name: Option<String>, error: RunError },
    /// A fail hook command is about to run.
    RunningHook(String),
    /// The message of a fail hook.
    Warning(String),
    /// A command that might mend the failure, offered where nobody can be asked.
    Suggestion(String),
    /// The command that was suggested has failed too.
    FixFailed,
    /// How the commands and tasks of a block ended, in order; `true` marks success.
    Summary(Vec<(String, bool)>),
}

pub enum NoticeView {
    TaskFailed { name: Option<Seq<char>>, error: RunErrorView },
    RunningHook(Seq<char>),
    Warning(Seq<char>),
    Suggestion(Seq<char>),
    FixFailed,
    Summary(Seq<(Seq<char>, bool)>),
}

/// The views of the marks of a summary.
pub open spec fn marks(v: Seq<(String, bool)>) -> Seq<(Seq<char>, bool)> {
    Seq::new(v.len(), |i: int| (v[i].0@, v[i].1))
}

impl View for Notice {
    type V = NoticeView;

    open spec fn view(&self) -> NoticeView {
        match *self {
            Notice::TaskFailed { name, error } => NoticeView::TaskFailed {
                name: opt_text(name),
                error: error@,
            },
            Notice::RunningHook(c) => NoticeView::RunningHook(c@),
            Notice::Warning(m) => NoticeView::Warning(m@),
            Notice::Suggestion(c) => NoticeView::Suggestion(c@),
            Notice::FixFailed => NoticeView::FixFailed,
            Notice::Summary(m) => NoticeView::Summary(marks(m@)),
        }
    }
}

/// The views of a list of notices.
pub open spec fn notices(v: Seq<Notice>) -> Seq<NoticeView> {
    Seq::new(v.len(), |i: int| v[i]@)
}

/// A question with the answers yes and no.
#[derive(Debug)]
pub enum Question {
    /// Whether to run this command, which might mend a failure.
    RunFix(String),
    /// Whether to go on to the next failed task.
    ContinueNext,
}

pub enum QuestionView {
    RunFix(Seq<char>),
    ContinueNext,
}

impl View for Question {
    type V = QuestionView;

    open spec fn view(&self) -> QuestionView {
        match *self {
            Question::RunFix(c) => QuestionView::RunFix(c@),
            Question::ContinueNext => QuestionView::ContinueNext,
        }
    }
}

/// The program that runs the commands: each is handed to it behind `-c`.
pub const SHELL: &'static str = "/bin/sh";

/// The variable that every command finds set in its environment. It tells
/// whatever the command starts that a task runs it.
pub const MARKER: &'static str = "PLZ_COMMAND";

/// The value of the marker.
pub const MARKER_VALUE: &'static str = "1";

/// What the machine asks of its host.
#[derive(Debug)]
pub enum Request {
    /// Run `command` through the shell in the directory `dir`, with the
    /// marker set in its environment, and wait for its end. Answered by
    /// `Exited`, or by `Failed`.
    Shell { command: String, dir: String },
    /// Start `command` through the shell in the directory `dir`, with the
    /// marker set in its environment, and do not wait for it. Answered by
    /// `Started`, or by `Failed`.
    Spawn { command: String, dir: String },
    /// Wait for the end of the process with the handle `id`. Answered by
    /// `Exited`, or by `Failed`.
    Wait { id: u64 },
    /// Put the question to the user. Answered by `Answer`.
    Confirm(Question),
    /// Nothing is asked: take the next step. Answered by any event.
    Proceed,
    /// The run is over, with this result.
    Done(Result<(), RunError>),
}

pub enum RequestView {
    Shell { command: Seq<char>, dir: Seq<char> },
    Spawn { command: Seq<char>, dir: Seq<char> },
    Wait { id: u64 },
    Confirm(QuestionView),
    Proceed,
    Done(Result<(), RunErrorView>),
}

/// The view of the result of a run.
pub open spec fn verdict(r: Result<(), RunError>) -> Result<(), RunErrorView> {
    match r {
        Ok(_) => Ok(()),
        Err(e) => Err(e@),
    }
}

impl View for Request {
    type V = RequestView;

    open spec fn view(&self) -> RequestView {
        match *self {
            Request::Shell { command, dir } => RequestView::Shell { command: command@, dir: dir@ },
            Request::Spawn { command, dir } => RequestView::Spawn { command: command@, dir: dir@ },
            Request::Wait { id } => RequestView::Wait { id },
            Request::Confirm(q) => RequestView::Confirm(q@),
            Request::Proceed => RequestView::Proceed,
            Request::Done(r) => RequestView::Done(verdict(r)),
        }
    }
}

/// What the host reports back.
#[derive(Debug)]
pub enum Event {
    /// Nothing to report.
    Resume,
    /// The command has ended, with this exit code if it has one.
    Exited { code: Option<i32> },
    /// The command was started; `id` is the host's handle for the process.
    Started { id: u64 },
    /// The user's answer.
    Answer(bool),
    /// The request could not be carried out, for this reason.
    Failed(String),
}

pub enum EventView {
    Resume,
    Exited { code: Option<i32> },
    Started { id: u64 },
    Answer(bool),
    Failed(Seq<char>),
}

impl View for Event {
    type V = EventView;

    open spec fn view(&self) -> EventView {
        match *self {
            Event::Resume => EventView::Resume,
            Event::Exited { code } => EventView::Exited { code },
            Event::Started { id } => EventView::Started { id },
            Event::Answer(b) => EventView::Answer(b),
            Event::Failed(m) => EventView::Failed(m@),
        }
    }
}

pub struct FrameView {
    /// The task that the frame runs.
    pub task: TaskView,
    /// Whether the task's own fail hook is to be honoured.
    pub hooks: bool,
    /// The extra arguments for the single command.
    pub args: Seq<Seq<char>>,
    /// Where the task stands.
    pub stage: Stage,
    /// The position in the list at hand: of the next item to take up.
    pub at: int,
    /// The command that was handed to the host last.
    pub command: Seq<char>,
    /// The directory for what a fail hook suggests.
    pub dir: Seq<char>,
    /// The display name of the task that was entered last.
    pub name: Seq<char>,
    /// The plain commands of the parallel list, wrapped, in order.
    pub shells: Seq<Seq<char>>,
    /// The references of the parallel list, in order.
    pub refs: Seq<TaskRefView>,
    /// The commands of the parallel list that were started, in order.
    pub started: Seq<ChildView>,
    /// How the items of the block at hand have ended so far, in order.
    pub batch: Seq<OutcomeView>,
    /// The failures of the block that is being replayed, in order.
    pub failures: Seq<FailureView>,
    /// The failure that the task stands to end with.
    pub error: Option<RunErrorView>,
}

/// The frame of a task that has just been entered.
pub open spec fn fresh(task: TaskView, hooks: bool, args: Seq<Seq<char>>) -> FrameView {
    FrameView {
        task,
        hooks,
        args,
        stage: Stage::Fresh,
        at: 0,
        command: Seq::empty(),
        dir: Seq::empty(),
        name: Seq::empty(),
        shells: Seq::empty(),
        refs: Seq::empty(),
        started: Seq::empty(),
        batch: Seq::empty(),
        failures: Seq::empty(),
        error: None,
    }
}

/// What a step of a frame asks for.
pub enum Effect {
    /// The host is asked for something.
    Ask(RequestView),
    /// Another task is entered; the flag says whether its own fail hook is
    /// to be honoured.
    Call(TaskView, bool),
    /// The task is left, with the failure that its frame holds.
    Return,
}

/// A frame after a step, with what the step tells the user and asks for.
pub struct Turn {
    pub frame: FrameView,
    pub notices: Seq<NoticeView>,
    pub effect: Effect,
}

/// A step that tells the user nothing and only moves on.
pub open spec fn quiet(frame: FrameView) -> Turn {
    Turn { frame, notices: Seq::empty(), effect: Effect::Ask(RequestView::Proceed) }
}

/// The text that stands for an answer of the wrong kind.
pub open spec fn unexpected() -> Seq<char> {
    "unexpected reply"@
}

/// Why the host could not do what it was asked.
pub open spec fn fault(event: EventView) -> Seq<char> {
    match event {
        EventView::Failed(m) => m,
        _ => unexpected(),
    }
}

/// The failure, if any, that `event` reports of `command`: none for the
/// exit code zero; the exit code, or -1 where there is none, for a command
/// that ended otherwise; the host's reason where it could not run or await it.
pub open spec fn shell_failure(event: EventView, command: Seq<char>) -> Option<RunErrorView> {
    match event {
        EventView::Exited { code: Some(c) } => if c == 0 {
            None
        } else {
            Some(RunErrorView::CommandFailure { exit_code: c, command })
        },
        EventView::Exited { code: None } => Some(
            RunErrorView::CommandFailure { exit_code: -1i32, command },
        ),
        _ => Some(RunErrorView::Io(fault(event))),
    }
}

/// The plain commands among `cmds`, each wrapped for `env`, in order.
pub open spec fn shells_of(env: Option<Seq<char>>, cmds: Seq<Seq<char>>) -> Seq<Seq<char>>
    decreases cmds.len(),
{
    if cmds.len() == 0 {
        Seq::empty()
    } else {
        let before = shells_of(env, cmds.drop_last());
        let w = wrapped(env, cmds.last());
        if parse_ref(w) is None {
            before.push(w)
        } else {
            before
        }
    }
}

/// The task references among `cmds`, in order.
pub open spec fn refs_of(env: Option<Seq<char>>, cmds: Seq<Seq<char>>) -> Seq<TaskRefView>
    decreases cmds.len(),
{
    if cmds.len() == 0 {
        Seq::empty()
    } else {
        let before = refs_of(env, cmds.drop_last());
        match parse_ref(wrapped(env, cmds.last())) {
            Some(r) => before.push(r),
            None => before,
        }
    }
}

/// The outcomes of `batch` that are failures, in order.
pub open spec fn failed(batch: Seq<OutcomeView>) -> Seq<FailureView>
    decreases batch.len(),
{
    if batch.len() == 0 {
        Seq::empty()
    } else {
        match batch.last().error {
            Some(error) => failed(batch.drop_last()).push(
                FailureView { name: batch.last().name, error },
            ),
            None => failed(batch.drop_last()),
        }
    }
}

/// Name and success of each outcome of `batch`, in order.
pub open spec fn summary(batch: Seq<OutcomeView>) -> Seq<(Seq<char>, bool)> {
    Seq::new(batch.len(), |i: int| (batch[i].name, batch[i].error is None))
}

/// The task whose fail hook answers for the failure recorded under `name`:
/// where `name` holds a `:`, the task of a group, else the top-level task.
pub open spec fn failure_task(config: PlzConfigView, name: Seq<char>) -> Option<TaskView> {
    match split_first(name, ':') {
        Some((group, task)) => config.group_task(group, task),
        None => config.task(name),
    }
}

/// What a fail hook leads to.
pub enum HookPlan {
    /// Run this command, whatever comes of it.
    Run(Seq<char>),
    /// Ask whether to run this command.
    Offer(Seq<char>),
    /// Nothing further.
    Nothing,
}

/// What handling `hook` begins with: a command hook runs its command, a
/// suggestion is put to the user where there is one to ask.
pub open spec fn hook_plan(hook: FailHookView, env: Option<Seq<char>>, interactive: bool) -> HookPlan {
    match hook {
        FailHookView::Command(c) => HookPlan::Run(wrapped(env, c)),
        FailHookView::Message(_) => HookPlan::Nothing,
        FailHookView::Suggest { suggest_command } => if interactive {
            HookPlan::Offer(wrapped(env, suggest_command))
        } else {
            HookPlan::Nothing
        },
    }
}

/// What handling `hook` tells the user at its beginning, for the failure `error`.
pub open spec fn hook_notices(
    hook: FailHookView,
    env: Option<Seq<char>>,
    error: RunErrorView,
    interactive: bool,
) -> Seq<NoticeView> {
    let failed = NoticeView::TaskFailed { name: None, error };
    match hook {
        FailHookView::Command(c) => seq![failed, NoticeView::RunningHook(wrapped(env, c))],
        FailHookView::Message(m) => seq![failed, NoticeView::Warning(m)],
        FailHookView::Suggest { suggest_command } => if interactive {
            seq![failed]
        } else {
            seq![failed, NoticeView::Suggestion(wrapped(env, suggest_command))]
        },
    }
}

/// The frame at the start of its serial list.
pub open spec fn begin_serial(f: FrameView) -> FrameView {
    FrameView { stage: Stage::SerialAt, at: 0, batch: Seq::empty(), ..f }
}

/// The frame at the start of its parallel list: the list is parted into
/// plain commands and references, nothing is started, nothing has ended.
pub open spec fn begin_parallel(f: FrameView) -> FrameView {
    let cmds = match f.task.run_parallel {
        Some(c) => c,
        None => Seq::empty(),
    };
    FrameView {
        stage: Stage::SpawnAt,
        at: 0,
        batch: Seq::empty(),
        shells: shells_of(f.task.tool_env, cmds),
        refs: refs_of(f.task.tool_env, cmds),
        started: Seq::empty(),
        ..f
    }
}

/// The frame that stands to end with `error`.
pub open spec fn failing(f: FrameView, error: RunErrorView) -> FrameView {
    FrameView { stage: Stage::Failing, error: Some(error), ..f }
}

/// How many commands of the block have run when the block is at its
/// end. In the serial list every item that was taken up has run, be it a
/// plain command or a reference, though only references are recorded. In
/// the parallel list every item is recorded.
pub open spec fn ran(f: FrameView, serial: bool) -> int {
    if serial {
        f.at
    } else {
        f.batch.len() as int
    }
}

/// The end of a block. Where an item of the block has failed, the failures
/// are replayed, after a summary of what was recorded if more than one
/// command of the block has run. Otherwise the serial list is followed by
/// the parallel list, and the parallel list by the end of the task.
pub open spec fn end_block(f: FrameView, serial: bool) -> Turn {
    if failed(f.batch).len() > 0 {
        Turn {
            frame: FrameView { stage: Stage::ReplayAt, at: 0, failures: failed(f.batch), ..f },
            notices: if ran(f, serial) > 1 {
                seq![NoticeView::Summary(summary(f.batch))]
            } else {
                Seq::empty()
            },
            effect: Effect::Ask(RequestView::Proceed),
        }
    } else if serial {
        quiet(begin_parallel(f))
    } else {
        quiet(FrameView { stage: Stage::Finished, error: None, ..f })
    }
}

/// The frame with one more outcome in its batch.
pub open spec fn record(f: FrameView, name: Seq<char>, error: Option<RunErrorView>) -> FrameView {
    FrameView { batch: f.batch.push(OutcomeView { name, error }), ..f }
}

/// The first step of a task. The single command, wrapped and followed by
/// the extra arguments, is run in the shell, or the task that it points to
/// is entered with its own fail hook honoured. Without a single command
/// the serial list is next.
pub open spec fn step_fresh(config: PlzConfigView, base: Seq<char>, f: FrameView) -> Turn {
    match f.task.run {
        Some(cmd) => match command_line(wrapped(f.task.tool_env, cmd), f.args) {
            Ok(line) => match parse_ref(line) {
                Some(r) => match r.target(config) {
                    Some(t) => Turn {
                        frame: FrameView { stage: Stage::RunCall, name: r.display(), ..f },
                        notices: Seq::empty(),
                        effect: Effect::Call(t, true),
                    },
                    None => quiet(failing(f, r.missing())),
                },
                None => Turn {
                    frame: FrameView { stage: Stage::RunShell, command: line, ..f },
                    notices: Seq::empty(),
                    effect: Effect::Ask(
                        RequestView::Shell { command: line, dir: work_dir(base, f.task.dir) },
                    ),
                },
            },
            Err(_) => quiet(failing(f, RunErrorView::Unquotable)),
        },
        None => quiet(begin_serial(f)),
    }
}

/// The step after a command that the task waited for: its failure ends
/// the task's own phases at once; after its success `next` is due.
pub open spec fn step_shell_done(f: FrameView, event: EventView, next: FrameView) -> Turn {
    match shell_failure(event, f.command) {
        Some(e) => quiet(failing(f, e)),
        None => quiet(next),
    }
}

/// The step that takes up the next command of the serial list. A
/// reference is entered without its own fail hook, and a reference to no
/// task is recorded as a failure; a plain command is run in the shell.
pub open spec fn step_serial_at(config: PlzConfigView, base: Seq<char>, f: FrameView) -> Turn {
    if f.task.run_serial is Some && 0 <= f.at < f.task.run_serial->0.len() {
        let w = wrapped(f.task.tool_env, f.task.run_serial->0[f.at]);
        let g = FrameView { at: f.at + 1, ..f };
        match parse_ref(w) {
            Some(r) => match r.target(config) {
                Some(t) => Turn {
                    frame: FrameView { stage: Stage::SerialCall, name: r.display(), ..g },
                    notices: Seq::empty(),
                    effect: Effect::Call(t, false),
                },
                None => quiet(record(g, r.display(), Some(r.missing()))),
            },
            None => Turn {
                frame: FrameView { stage: Stage::SerialShell, command: w, ..g },
                notices: Seq::empty(),
                effect: Effect::Ask(
                    RequestView::Shell { command: w, dir: work_dir(base, f.task.dir) },
                ),
            },
        }
    } else {
        end_block(f, true)
    }
}

/// The step that starts the next plain command of the parallel list.
pub open spec fn step_spawn_at(base: Seq<char>, f: FrameView) -> Turn {
    if 0 <= f.at < f.shells.len() {
        Turn {
            frame: FrameView {
                stage: Stage::Spawning,
                at: f.at + 1,
                command: f.shells[f.at],
                ..f
            },
            notices: Seq::empty(),
            effect: Effect::Ask(
                RequestView::Spawn { command: f.shells[f.at], dir: work_dir(base, f.task.dir) },
            ),
        }
    } else {
        quiet(FrameView { stage: Stage::CallAt, at: 0, ..f })
    }
}

/// The step after a command was to be started: it joins the commands
/// that are waited for later; if it could not be started, the task's own
/// phases end at once.
pub open spec fn step_spawning(f: FrameView, event: EventView) -> Turn {
    match event {
        EventView::Started { id } => quiet(
            FrameView {
                stage: Stage::SpawnAt,
                started: f.started.push(ChildView { command: f.command, id }),
                ..f
            },
        ),
        _ => quiet(failing(f, RunErrorView::Io(fault(event)))),
    }
}

/// The step that takes up the next reference of the parallel list, once
/// every plain command has been started.
pub open spec fn step_call_at(config: PlzConfigView, f: FrameView) -> Turn {
    if 0 <= f.at < f.refs.len() {
        let r = f.refs[f.at];
        let g = FrameView { at: f.at + 1, ..f };
        match r.target(config) {
            Some(t) => Turn {
                frame: FrameView { stage: Stage::Calling, name: r.display(), ..g },
                notices: Seq::empty(),
                effect: Effect::Call(t, false),
            },
            None => quiet(record(g, r.display(), Some(r.missing()))),
        }
    } else {
        quiet(FrameView { stage: Stage::WaitAt, at: 0, ..f })
    }
}

/// The step that waits for the next command that was started, once every
/// reference has been run.
pub open spec fn step_wait_at(f: FrameView) -> Turn {
    if 0 <= f.at < f.started.len() {
        Turn {
            frame: FrameView {
                stage: Stage::Waiting,
                at: f.at + 1,
                command: f.started[f.at].command,
                ..f
            },
            notices: Seq::empty(),
            effect: Effect::Ask(RequestView::Wait { id: f.started[f.at].id }),
        }
    } else {
        end_block(f, false)
    }
}

/// The step after a wait: the command's end is recorded, be it success or
/// failure; if it could not be waited for, the task's own phases end at once.
pub open spec fn step_waiting(f: FrameView, event: EventView) -> Turn {
    match event {
        EventView::Exited { code } => quiet(
            record(
                FrameView { stage: Stage::WaitAt, ..f },
                f.command,
                shell_failure(event, f.command),
            ),
        ),
        _ => quiet(failing(f, RunErrorView::Io(fault(event)))),
    }
}

/// The step that takes up the next failure of a block. The fail hook of
/// the task that failed is handled, with that task's tool environment and
/// directory; a failure without a fail hook is only told. After the last
/// failure the block has failed as a whole.
pub open spec fn step_replay_at(
    config: PlzConfigView,
    base: Seq<char>,
    interactive: bool,
    f: FrameView,
) -> Turn {
    if 0 <= f.at < f.failures.len() {
        let failure = f.failures[f.at];
        let error = failure.error;
        let g = FrameView { at: f.at + 1, ..f };
        match failure_task(config, failure.name) {
            Some(t) => match t.fail_hook {
                Some(hook) => {
                    let told = hook_notices(hook, t.tool_env, error, interactive);
                    let dir = work_dir(base, t.dir);
                    match hook_plan(hook, t.tool_env, interactive) {
                        HookPlan::Run(w) => Turn {
                            frame: FrameView { stage: Stage::ReplayShell, command: w, dir, ..g },
                            notices: told,
                            effect: Effect::Ask(RequestView::Shell { command: w, dir }),
                        },
                        HookPlan::Offer(w) => Turn {
                            frame: FrameView { stage: Stage::ReplayAsk, command: w, dir, ..g },
                            notices: told,
                            effect: Effect::Ask(RequestView::Confirm(QuestionView::RunFix(w))),
                        },
                        HookPlan::Nothing => Turn {
                            frame: FrameView { stage: Stage::ReplayNext, ..g },
                            notices: told,
                            effect: Effect::Ask(RequestView::Proceed),
                        },
                    }
                },
                None => bare_failure(g, failure.name, error),
            },
            None => bare_failure(g, failure.name, error),
        }
    } else {
        quiet(failing(f, RunErrorView::AggregatedFailure))
    }
}

/// The step for a failure of a block whose task has no fail hook.
pub open spec fn bare_failure(g: FrameView, name: Seq<char>, error: RunErrorView) -> Turn {
    Turn {
        frame: FrameView { stage: Stage::ReplayNext, ..g },
        notices: seq![NoticeView::TaskFailed { name: Some(name), error }],
        effect: Effect::Ask(RequestView::Proceed),
    }
}

/// The step after the question whether to run what a fail hook suggests:
/// on yes the command is run, on anything else `declined` is due.
pub open spec fn step_asked(f: FrameView, event: EventView, fix: Stage, declined: Stage) -> Turn {
    match event {
        EventView::Answer(true) => Turn {
            frame: FrameView { stage: fix, ..f },
            notices: Seq::empty(),
            effect: Effect::Ask(RequestView::Shell { command: f.command, dir: f.dir }),
        },
        _ => quiet(FrameView { stage: declined, ..f }),
    }
}

/// The step after a failure of a block was left unresolved: where there
/// is a user to ask and another failure to come, the user is asked
/// whether to go on.
pub open spec fn step_replay_next(interactive: bool, f: FrameView) -> Turn {
    if interactive && f.at < f.failures.len() {
        Turn {
            frame: FrameView { stage: Stage::ReplayContinue, ..f },
            notices: Seq::empty(),
            effect: Effect::Ask(RequestView::Confirm(QuestionView::ContinueNext)),
        }
    } else {
        quiet(FrameView { stage: Stage::ReplayAt, ..f })
    }
}

/// The step after the question whether to go on to the next failure: on
/// yes the next failure is taken up, on anything else the block is
/// given up.
pub open spec fn step_continue(f: FrameView, event: EventView) -> Turn {
    match event {
        EventView::Answer(true) => quiet(FrameView { stage: Stage::ReplayAt, ..f }),
        _ => quiet(failing(f, RunErrorView::Aborted)),
    }
}

/// The step for a task whose own phases have ended in a failure: its fail
/// hook is handled where the task has one and it is to be honoured.
pub open spec fn step_failing(base: Seq<char>, interactive: bool, f: FrameView) -> Turn {
    if f.hooks && f.task.fail_hook is Some && f.error is Some {
        let hook = f.task.fail_hook->0;
        let told = hook_notices(hook, f.task.tool_env, f.error->0, interactive);
        let dir = work_dir(base, f.task.dir);
        match hook_plan(hook, f.task.tool_env, interactive) {
            HookPlan::Run(w) => Turn {
                frame: FrameView { stage: Stage::HookShell, command: w, dir, ..f },
                notices: told,
                effect: Effect::Ask(RequestView::Shell { command: w, dir }),
            },
            HookPlan::Offer(w) => Turn {
                frame: FrameView { stage: Stage::HookAsk, command: w, dir, ..f },
                notices: told,
                effect: Effect::Ask(RequestView::Confirm(QuestionView::RunFix(w))),
            },
            HookPlan::Nothing => Turn {
                frame: FrameView { stage: Stage::Finished, ..f },
                notices: told,
                effect: Effect::Ask(RequestView::Proceed),
            },
        }
    } else {
        quiet(FrameView { stage: Stage::Finished, ..f })
    }
}

/// The step after what a fail hook suggested was run: its success
/// resolves the failure and `resolved` is due; after anything else the
/// user is told and `unresolved` is due.
pub open spec fn step_fixed(f: FrameView, event: EventView, resolved: FrameView, unresolved: Stage) -> Turn {
    if shell_failure(event, f.command) is None {
        quiet(resolved)
    } else {
        Turn {
            frame: FrameView { stage: unresolved, ..f },
            notices: seq![NoticeView::FixFailed],
            effect: Effect::Ask(RequestView::Proceed),
        }
    }
}

/// The frame of a task after the task that it had entered was left with
/// `error`. The failure of the task that the single command points to
/// ends the task's own phases; the end of a task of a list is recorded
/// and the list goes on.
pub open spec fn deliver(parent: FrameView, error: Option<RunErrorView>) -> FrameView {
    match parent.stage {
        Stage::RunCall => match error {
            Some(e) => failing(parent, e),
            None => begin_serial(parent),
        },
        Stage::SerialCall => record(
            FrameView { stage: Stage::SerialAt, ..parent },
            parent.name,
            error,
        ),
        Stage::Calling => record(FrameView { stage: Stage::CallAt, ..parent }, parent.name, error),
        _ => parent,
    }
}

/// One step of the frame at work.
#[verifier::opaque]
pub open spec fn frame_step(
    config: PlzConfigView,
    base: Seq<char>,
    interactive: bool,
    f: FrameView,
    event: EventView,
) -> Turn {
    match f.stage {
        Stage::Fresh => step_fresh(config, base, f),
        Stage::RunShell => step_shell_done(f, event, begin_serial(f)),
        Stage::RunCall => quiet(deliver(f, None)),
        Stage::SerialAt => step_serial_at(config, base, f),
        Stage::SerialShell => step_shell_done(f, event, FrameView { stage: Stage::SerialAt, ..f }),
        Stage::SerialCall => quiet(deliver(f, None)),
        Stage::SpawnAt => step_spawn_at(base, f),
        Stage::Spawning => step_spawning(f, event),
        Stage::CallAt => step_call_at(config, f),
        Stage::Calling => quiet(deliver(f, None)),
        Stage::WaitAt => step_wait_at(f),
        Stage::Waiting => step_waiting(f, event),
        Stage::ReplayAt => step_replay_at(config, base, interactive, f),
        Stage::ReplayShell => quiet(FrameView { stage: Stage::ReplayNext, ..f }),
        Stage::ReplayAsk => step_asked(f, event, Stage::ReplayFix, Stage::ReplayNext),
        Stage::ReplayFix => step_fixed(
            f,
            event,
            FrameView { stage: Stage::ReplayAt, ..f },
            Stage::ReplayNext,
        ),
        Stage::ReplayNext => step_replay_next(interactive, f),
        Stage::ReplayContinue => step_continue(f, event),
        Stage::Failing => step_failing(base, interactive, f),
        Stage::HookShell => quiet(FrameView { stage: Stage::Finished, ..f }),
        Stage::HookAsk => step_asked(f, event, Stage::HookFix, Stage::Finished),
        Stage::HookFix => step_fixed(
            f,
            event,
            FrameView { stage: Stage::Finished, error: None, ..f },
            Stage::Finished,
        ),
        Stage::Finished => Turn { frame: f, notices: Seq::empty(), effect: Effect::Return },
    }
}

/// The state of a run.
pub struct RunView {
    /// The directory of the configuration file.
    pub base: Seq<char>,
    /// Whether there is a user to ask.
    pub interactive: bool,
    /// The tasks that were entered and not left, the one at work last.
    pub stack: Seq<FrameView>,
    /// The failure that the run has ended with, once it is over.
    pub failure: Option<RunErrorView>,
}

/// A run after a step, with what the step tells the user and asks of the host.
pub struct Progress {
    pub run: RunView,
    pub notices: Seq<NoticeView>,
    pub request: RequestView,
}

/// Success, or the failure.
pub open spec fn result_of(failure: Option<RunErrorView>) -> Result<(), RunErrorView> {
    match failure {
        Some(e) => Err(e),
        None => Ok(()),
    }
}

/// One step of a run: the frame at work takes its step. A task that is
/// entered gets a frame of its own on top; a task that is left hands its
/// failure, if any, to the frame below; when the last task is left the run
/// is over.
pub open spec fn advance(config: PlzConfigView, run: RunView, event: EventView) -> Progress {
    if run.stack.len() == 0 {
        Progress { run, notices: Seq::empty(), request: RequestView::Done(result_of(run.failure)) }
    } else {
        let below = run.stack.drop_last();
        let turn = frame_step(config, run.base, run.interactive, run.stack.last(), event);
        match turn.effect {
            Effect::Ask(request) => Progress {
                run: RunView { stack: below.push(turn.frame), ..run },
                notices: turn.notices,
                request,
            },
            Effect::Call(task, hooks) => Progress {
                run: RunView {
                    stack: below.push(turn.frame).push(fresh(task, hooks, Seq::empty())),
                    ..run
                },
                notices: turn.notices,
                request: RequestView::Proceed,
            },
            Effect::Return => if below.len() == 0 {
                Progress {
                    run: RunView { stack: below, failure: turn.frame.error, ..run },
                    notices: turn.notices,
                    request: RequestView::Done(result_of(turn.frame.error)),
                }
            } else {
                Progress {
                    run: RunView {
                        stack: below.drop_last().push(deliver(below.last(), turn.frame.error)),
                        ..run
                    },
                    notices: turn.notices,
                    request: RequestView::Proceed,
                }
            },
        }
    }
}

/// The run that is about to enter `task`.
pub open spec fn start(
    task: TaskView,
    base: Seq<char>,
    interactive: bool,
    args: Seq<Seq<char>>,
) -> RunView {
    RunView { base, interactive, stack: seq![fresh(task, true, args)], failure: None }
}

/// The run after `n` further steps, each answered by `Resume`.
pub open spec fn after(config: PlzConfigView, run: RunView, n: nat) -> RunView
    decreases n,
{
    if n == 0 {
        run
    } else {
        advance(config, after(config, run, (n - 1) as nat), EventView::Resume).run
    }
}

/// Whether a task in this stage replays the failures of a block.
pub open spec fn replaying(stage: Stage) -> bool {
    stage == Stage::ReplayAt || stage == Stage::ReplayShell || stage == Stage::ReplayAsk || stage
        == Stage::ReplayFix || stage == Stage::ReplayNext || stage == Stage::ReplayContinue
}

/// Whether the own phases of a task in this stage are over.
pub open spec fn winding_down(stage: Stage) -> bool {
    stage == Stage::Failing || stage == Stage::HookShell || stage == Stage::HookAsk || stage
        == Stage::HookFix || stage == Stage::Finished
}

/// The step of a frame in the stage `Fresh`.
pub proof fn lemma_at_fresh(
    config: PlzConfigView,
    base: Seq<char>,
    interactive: bool,
    f: FrameView,
    event: EventView,
)
    requires
        f.stage == Stage::Fresh,
    ensures
        frame_step(config, base, interactive, f, event) == step_fresh(config, base, f),
{
    reveal(frame_step);
}

/// The step of a frame in the stage `RunShell`.
pub proof fn lemma_at_run_shell(
    config: PlzConfigView,
    base: Seq<char>,
    interactive: bool,
    f: FrameView,
    event: EventView,
)
    requires
        f.stage == Stage::RunShell,
    ensures
        frame_step(config, base, interactive, f, event) == step_shell_done(f, event, begin_serial(f)),
{
    reveal(frame_step);
}

/// The step of a frame in the stage `RunCall`.
pub proof fn lemma_at_run_call(
    config: PlzConfigView,
    base: Seq<char>,
    interactive: bool,
    f: FrameView,
    event: EventView,
)
    requires
        f.stage == Stage::RunCall,
    ensures
        frame_step(config, base, interactive, f, event) == quiet(deliver(f, None)),
{
    reveal(frame_step);
}

/// The step of a frame in the stage `SerialAt`.
pub proof fn lemma_at_serial_at(
    config: PlzConfigView,
    base: Seq<char>,
    interactive: bool,
    f: FrameView,
    event: EventView,
)
    requires
        f.stage == Stage::SerialAt,
    ensures
        frame_step(config, base, interactive, f, event) == step_serial_at(config, base, f),
{
    reveal(frame_step);
}

/// The step of a frame in the stage `SerialShell`.
pub proof fn lemma_at_serial_shell(
    config: PlzConfigView,
    base: Seq<char>,
    interactive: bool,
    f: FrameView,
    event: EventView,
)
    requires
        f.stage == Stage::SerialShell,
    ensures
        frame_step(config, base, interactive, f, event) == step_shell_done(f, event, FrameView { stage: Stage::SerialAt, ..f }),
{
    reveal(frame_step);
}

/// The step of a frame in the stage `SerialCall`.
pub proof fn lemma_at_serial_call(
    config: PlzConfigView,
    base: Seq<char>,
    interactive: bool,
    f: FrameView,
    event: EventView,
)
    requires
        f.stage == Stage::SerialCall,
    ensures
        frame_step(config, base, interactive, f, event) == quiet(deliver(f, None)),
{
    reveal(frame_step);
}

/// The step of a frame in the stage `SpawnAt`.
pub proof fn lemma_at_spawn_at(
    config: PlzConfigView,
    base: Seq<char>,
    interactive: bool,
    f: FrameView,
    event: EventView,
)
    requires
        f.stage == Stage::SpawnAt,
    ensures
        frame_step(config, base, interactive, f, event) == step_spawn_at(base, f),
{
    reveal(frame_step);
}

/// The step of a frame in the stage `Spawning`.
pub proof fn lemma_at_spawning(
    config: PlzConfigView,
    base: Seq<char>,
    interactive: bool,
    f: FrameView,
    event: EventView,
)
    requires
        f.stage == Stage::Spawning,
    ensures
        frame_step(config, base, interactive, f, event) == step_spawning(f, event),
{
    reveal(frame_step);
}

/// The step of a frame in the stage `CallAt`.
pub proof fn lemma_at_call_at(
    config: PlzConfigView,
    base: Seq<char>,
    interactive: bool,
    f: FrameView,
    event: EventView,
)
    requires
        f.stage == Stage::CallAt,
    ensures
        frame_step(config, base, interactive, f, event) == step_call_at(config, f),
{
    reveal(frame_step);
}

/// The step of a frame in the stage `Calling`.
pub proof fn lemma_at_calling(
    config: PlzConfigView,
    base: Seq<char>,
    interactive: bool,
    f: FrameView,
    event: EventView,
)
    requires
        f.stage == Stage::Calling,
    ensures
        frame_step(config, base, interactive, f, event) == quiet(deliver(f, None)),
{
    reveal(frame_step);
}

/// The step of a frame in the stage `WaitAt`.
pub proof fn lemma_at_wait_at(
    config: PlzConfigView,
    base: Seq<char>,
    interactive: bool,
    f: FrameView,
    event: EventView,
)
    requires
        f.stage == Stage::WaitAt,
    ensures
        frame_step(config, base, interactive, f, event) == step_wait_at(f),
{
    reveal(frame_step);
}

/// The step of a frame in the stage `Waiting`.
pub proof fn lemma_at_waiting(
    config: PlzConfigView,
    base: Seq<char>,
    interactive: bool,
    f: FrameView,
    event: EventView,
)
    requires
        f.stage == Stage::Waiting,
    ensures
        frame_step(config, base, interactive, f, event) == step_waiting(f, event),
{
    reveal(frame_step);
}

/// The step of a frame in the stage `ReplayAt`.
pub proof fn lemma_at_replay_at(
    config: PlzConfigView,
    base: Seq<char>,
    interactive: bool,
    f: FrameView,
    event: EventView,
)
    requires
        f.stage == Stage::ReplayAt,
    ensures
        frame_step(config, base, interactive, f, event) == step_replay_at(config, base, interactive, f),
{
    reveal(frame_step);
}

/// The step of a frame in the stage `ReplayShell`.
pub proof fn lemma_at_replay_shell(
    config: PlzConfigView,
    base: Seq<char>,
    interactive: bool,
    f: FrameView,
    event: EventView,
)
    requires
        f.stage == Stage::ReplayShell,
    ensures
        frame_step(config, base, interactive, f, event) == quiet(FrameView { stage: Stage::ReplayNext, ..f }),
{
    reveal(frame_step);
}

/// The step of a frame in the stage `ReplayAsk`.
pub proof fn lemma_at_replay_ask(
    config: PlzConfigView,
    base: Seq<char>,
    interactive: bool,
    f: FrameView,
    event: EventView,
)
    requires
        f.stage == Stage::ReplayAsk,
    ensures
        frame_step(config, base, interactive, f, event) == step_asked(f, event, Stage::ReplayFix, Stage::ReplayNext),
{
    reveal(frame_step);
}

/// The step of a frame in the stage `ReplayFix`.
pub proof fn lemma_at_replay_fix(
    config: PlzConfigView,
    base: Seq<char>,
    interactive: bool,
    f: FrameView,
    event: EventView,
)
    requires
        f.stage == Stage::ReplayFix,
    ensures
        frame_step(config, base, interactive, f, event) == step_fixed(f, event, FrameView { stage: Stage::ReplayAt, ..f }, Stage::ReplayNext),
{
    reveal(frame_step);
}

/// The step of a frame in the stage `ReplayNext`.
pub proof fn lemma_at_replay_next(
    config: PlzConfigView,
    base: Seq<char>,
    interactive: bool,
    f: FrameView,
    event: EventView,
)
    requires
        f.stage == Stage::ReplayNext,
    ensures
        frame_step(config, base, interactive, f, event) == step_replay_next(interactive, f),
{
    reveal(frame_step);
}

/// The step of a frame in the stage `ReplayContinue`.
pub proof fn lemma_at_replay_continue(
    config: PlzConfigView,
    base: Seq<char>,
    interactive: bool,
    f: FrameView,
    event: EventView,
)
    requires
        f.stage == Stage::ReplayContinue,
    ensures
        frame_step(config, base, interactive, f, event) == step_continue(f, event),
{
    reveal(frame_step);
}

/// The step of a frame in the stage `Failing`.
pub proof fn lemma_at_failing(
    config: PlzConfigView,
    base: Seq<char>,
    interactive: bool,
    f: FrameView,
    event: EventView,
)
    requires
        f.stage == Stage::Failing,
    ensures
        frame_step(config, base, interactive, f, event) == step_failing(base, interactive, f),
{
    reveal(frame_step);
}

/// The step of a frame in the stage `HookShell`.
pub proof fn lemma_at_hook_shell(
    config: PlzConfigView,
    base: Seq<char>,
    interactive: bool,
    f: FrameView,
    event: EventView,
)
    requires
        f.stage == Stage::HookShell,
    ensures
        frame_step(config, base, interactive, f, event) == quiet(FrameView { stage: Stage::Finished, ..f }),
{
    reveal(frame_step);
}

/// The step of a frame in the stage `HookAsk`.
pub proof fn lemma_at_hook_ask(
    config: PlzConfigView,
    base: Seq<char>,
    interactive: bool,
    f: FrameView,
    event: EventView,
)
    requires
        f.stage == Stage::HookAsk,
    ensures
        frame_step(config, base, interactive, f, event) == step_asked(f, event, Stage::HookFix, Stage::Finished),
{
    reveal(frame_step);
}

/// The step of a frame in the stage `HookFix`.
pub proof fn lemma_at_hook_fix(
    config: PlzConfigView,
    base: Seq<char>,
    interactive: bool,
    f: FrameView,
    event: EventView,
)
    requires
        f.stage == Stage::HookFix,
    ensures
        frame_step(config, base, interactive, f, event) == step_fixed(f, event, FrameView { stage: Stage::Finished, error: None, ..f }, Stage::Finished),
{
    reveal(frame_step);
}

/// The step of a frame in the stage `Finished`.
pub proof fn lemma_at_finished(
    config: PlzConfigView,
    base: Seq<char>,
    interactive: bool,
    f: FrameView,
    event: EventView,
)
    requires
        f.stage == Stage::Finished,
    ensures
        frame_step(config, base, interactive, f, event) == (Turn { frame: f, notices: Seq::empty(), effect: Effect::Return }),
{
    reveal(frame_step);
}

} // verus!
