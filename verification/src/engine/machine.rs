//! The machine itself: the frames of a run and the steps that change them.

use crate::config::{clone_list, FailHook, PlzConfig, PlzConfigView, Task};
use crate::engine::model::{
    advance, bare_failure, begin_parallel, begin_serial, Child, children, deliver, Effect,
    end_block, Event, failed, failing, Failure, failure_task, failure_views, FailureView, fault,
    frame_step, FrameView, fresh, hook_notices, hook_plan, HookPlan, marks, Notice, notices,
    NoticeView, Outcome, outcomes, OutcomeView, Progress, Question, quiet, record, references,
    refs_of, Request, RunView, shell_failure, shells_of, Stage, start, step_asked, step_call_at,
    step_continue, step_failing, step_fixed, step_fresh, step_replay_at, step_replay_next,
    step_serial_at, step_shell_done, step_spawn_at, step_spawning, step_wait_at, step_waiting,
    summary, Turn, unexpected,
};
use crate::engine::shell::{full_command, working_directory};
use crate::runner::{
    opt_error, parse_task_ref, resolve_task_ref, RunError, TaskRef, TaskRefView, wrap,
};
use crate::text::{opt_text, split_once, texts};
use vstd::prelude::*;

verus! {

/// The state of one task that has been entered and not left.
#[derive(Debug)]
pub struct Frame {
    task: Task,
    hooks: bool,
    args: Vec<String>,
    stage: Stage,
    at: usize,
    command: String,
    dir: String,
    name: String,
    shells: Vec<String>,
    refs: Vec<TaskRef>,
    started: Vec<Child>,
    batch: Vec<Outcome>,
    failures: Vec<Failure>,
    error: Option<RunError>,
}

impl View for Frame {
    type V = FrameView;

    closed spec fn view(&self) -> FrameView {
        FrameView {
            task: self.task@,
            hooks: self.hooks,
            args: texts(self.args@),
            stage: self.stage,
            at: self.at as int,
            command: self.command@,
            dir: self.dir@,
            name: self.name@,
            shells: texts(self.shells@),
            refs: references(self.refs@),
            started: children(self.started@),
            batch: outcomes(self.batch@),
            failures: failure_views(self.failures@),
            error: opt_error(self.error),
        }
    }
}

/// What a step of a frame asks for, with the task to enter held by value.
enum Move {
    Ask(Request),
    Call(Task, bool),
    Return,
}

impl View for Move {
    type V = Effect;

    closed spec fn view(&self) -> Effect {
        match *self {
            Move::Ask(r) => Effect::Ask(r@),
            Move::Call(t, hooks) => Effect::Call(t@, hooks),
            Move::Return => Effect::Return,
        }
    }
}

struct FrameTurn {
    frame: Frame,
    notices: Vec<Notice>,
    effect: Move,
}

impl View for FrameTurn {
    type V = Turn;

    closed spec fn view(&self) -> Turn {
        Turn { frame: self.frame@, notices: notices(self.notices@), effect: self.effect@ }
    }
}

enum Plan {
    Run(String),
    Offer(String),
    Nothing,
}

impl View for Plan {
    type V = HookPlan;

    closed spec fn view(&self) -> HookPlan {
        match *self {
            Plan::Run(c) => HookPlan::Run(c@),
            Plan::Offer(c) => HookPlan::Offer(c@),
            Plan::Nothing => HookPlan::Nothing,
        }
    }
}

fn new_frame(task: Task, hooks: bool, args: Vec<String>) -> (f: Frame)
    ensures
        f@ == fresh(task@, hooks, texts(args@)),
{
    let f = Frame {
        task,
        hooks,
        args,
        stage: Stage::Fresh,
        at: 0,
        command: String::new(),
        dir: String::new(),
        name: String::new(),
        shells: Vec::new(),
        refs: Vec::new(),
        started: Vec::new(),
        batch: Vec::new(),
        failures: Vec::new(),
        error: None,
    };
    proof {
        assert(f@.shells =~= Seq::empty());
        assert(f@.refs =~= Seq::empty());
        assert(f@.started =~= Seq::empty());
        assert(f@.batch =~= Seq::empty());
        assert(f@.failures =~= Seq::empty());
    }
    f
}

fn no_notices() -> (v: Vec<Notice>)
    ensures
        notices(v@) == Seq::<NoticeView>::empty(),
{
    let v: Vec<Notice> = Vec::new();
    assert(notices(v@) =~= Seq::<NoticeView>::empty());
    v
}

fn quiet_turn(frame: Frame) -> (t: FrameTurn)
    ensures
        t@ == quiet(frame@),
{
    FrameTurn { frame, notices: no_notices(), effect: Move::Ask(Request::Proceed) }
}

fn failing_frame(f: Frame, error: RunError) -> (r: Frame)
    ensures
        r@ == failing(f@, error@),
{
    Frame { stage: Stage::Failing, error: Some(error), ..f }
}

fn staged(f: Frame, stage: Stage) -> (r: Frame)
    ensures
        r@ == (FrameView { stage, ..f@ }),
{
    Frame { stage, ..f }
}

fn fault_text(event: &Event) -> (r: String)
    ensures
        r@ == fault(event@),
{
    match event {
        Event::Failed(m) => m.clone(),
        _ => "unexpected reply".to_owned(),
    }
}

fn shell_outcome(event: &Event, command: &String) -> (r: Option<RunError>)
    ensures
        opt_error(r) == shell_failure(event@, command@),
{
    match event {
        Event::Exited { code: Some(c) } => {
            if *c == 0 {
                None
            } else {
                Some(RunError::CommandFailure { exit_code: *c, command: command.clone() })
            }
        },
        Event::Exited { code: None } => Some(
            RunError::CommandFailure { exit_code: -1, command: command.clone() },
        ),
        _ => Some(RunError::Io(fault_text(event))),
    }
}

fn env_of(task: &Task) -> (r: Option<&str>)
    ensures
        match r {
            Some(e) => task@.tool_env == Some(e@),
            None => task@.tool_env is None,
        },
{
    match &task.tool_env {
        Some(e) => Some(e.as_str()),
        None => None,
    }
}

fn partition(task: &Task, cmds: &Vec<String>) -> (r: (Vec<String>, Vec<TaskRef>))
    ensures
        texts(r.0@) == shells_of(task@.tool_env, texts(cmds@)),
        references(r.1@) == refs_of(task@.tool_env, texts(cmds@)),
{
    let mut shells: Vec<String> = Vec::new();
    let mut refs: Vec<TaskRef> = Vec::new();
    let mut i: usize = 0;
    assert(texts(cmds@).take(0) =~= Seq::<Seq<char>>::empty());
    assert(texts(shells@) =~= Seq::<Seq<char>>::empty());
    assert(references(refs@) =~= Seq::<TaskRefView>::empty());
    while i < cmds.len()
        invariant
            i <= cmds.len(),
            texts(shells@) == shells_of(task@.tool_env, texts(cmds@).take(i as int)),
            references(refs@) == refs_of(task@.tool_env, texts(cmds@).take(i as int)),
        decreases cmds.len() - i,
    {
        let w = wrap(env_of(task), cmds[i].as_str());
        proof {
            let now = texts(cmds@).take(i + 1);
            assert(now.drop_last() =~= texts(cmds@).take(i as int));
            assert(now.last() == cmds@[i as int]@);
        }
        let ghost old_shells = texts(shells@);
        let ghost old_refs = references(refs@);
        match parse_task_ref(w.as_str()) {
            Some(r) => {
                refs.push(r);
                assert(references(refs@) =~= old_refs.push(r@));
            },
            None => {
                shells.push(w);
                assert(texts(shells@) =~= old_shells.push(w@));
            },
        }
        i += 1;
    }
    assert(texts(cmds@).take(cmds@.len() as int) =~= texts(cmds@));
    (shells, refs)
}

fn failures_of(batch: &Vec<Outcome>) -> (r: Vec<Failure>)
    ensures
        failure_views(r@) == failed(outcomes(batch@)),
{
    let mut r: Vec<Failure> = Vec::new();
    let mut i: usize = 0;
    assert(outcomes(batch@).take(0) =~= Seq::<OutcomeView>::empty());
    assert(failure_views(r@) =~= Seq::<FailureView>::empty());
    while i < batch.len()
        invariant
            i <= batch.len(),
            failure_views(r@) == failed(outcomes(batch@).take(i as int)),
        decreases batch.len() - i,
    {
        proof {
            let now = outcomes(batch@).take(i + 1);
            assert(now.drop_last() =~= outcomes(batch@).take(i as int));
            assert(now.last() == batch@[i as int]@);
        }
        let ghost before = failure_views(r@);
        match &batch[i].error {
            Some(e) => {
                let failure = Failure { name: batch[i].name.clone(), error: e.clone() };
                r.push(failure);
                assert(failure_views(r@) =~= before.push(failure@));
            },
            None => {},
        }
        i += 1;
    }
    assert(outcomes(batch@).take(batch@.len() as int) =~= outcomes(batch@));
    r
}

fn summary_of(batch: &Vec<Outcome>) -> (r: Vec<(String, bool)>)
    ensures
        marks(r@) == summary(outcomes(batch@)),
{
    let mut r: Vec<(String, bool)> = Vec::new();
    let mut i: usize = 0;
    while i < batch.len()
        invariant
            i <= batch.len(),
            r@.len() == i,
            forall|j: int| 0 <= j < i ==> r@[j].0@ == batch@[j].name@ && r@[j].1 == (
            batch@[j].error is None),
        decreases batch.len() - i,
    {
        let ok = batch[i].error.is_none();
        r.push((batch[i].name.clone(), ok));
        i += 1;
    }
    assert(marks(r@) =~= summary(outcomes(batch@)));
    r
}

fn begin_serial_frame(f: Frame) -> (r: Frame)
    ensures
        r@ == begin_serial(f@),
{
    let r = Frame { stage: Stage::SerialAt, at: 0, batch: Vec::new(), ..f };
    assert(r@.batch =~= Seq::empty());
    r
}

fn begin_parallel_frame(f: Frame) -> (r: Frame)
    ensures
        r@ == begin_parallel(f@),
{
    let (shells, refs) = match &f.task.run_parallel {
        Some(cmds) => partition(&f.task, cmds),
        None => {
            let none: Vec<String> = Vec::new();
            assert(texts(none@) =~= Seq::<Seq<char>>::empty());
            partition(&f.task, &none)
        },
    };
    let r = Frame {
        stage: Stage::SpawnAt,
        at: 0,
        batch: Vec::new(),
        shells,
        refs,
        started: Vec::new(),
        ..f
    };
    assert(r@.batch =~= Seq::empty());
    assert(r@.started =~= Seq::empty());
    r
}

fn end_block_turn(f: Frame, serial: bool) -> (t: FrameTurn)
    ensures
        t@ == end_block(f@, serial),
{
    let failures = failures_of(&f.batch);
    if failures.len() > 0 {
        let mut told: Vec<Notice> = Vec::new();
        let several = if serial {
            f.at > 1
        } else {
            f.batch.len() > 1
        };
        if several {
            let notice = Notice::Summary(summary_of(&f.batch));
            told.push(notice);
            assert(notices(told@) =~= seq![notice@]);
        } else {
            assert(notices(told@) =~= Seq::<NoticeView>::empty());
        }
        FrameTurn {
            frame: Frame { stage: Stage::ReplayAt, at: 0, failures, ..f },
            notices: told,
            effect: Move::Ask(Request::Proceed),
        }
    } else if serial {
        quiet_turn(begin_parallel_frame(f))
    } else {
        quiet_turn(Frame { stage: Stage::Finished, error: None, ..f })
    }
}

fn record_outcome(f: Frame, name: String, error: Option<RunError>) -> (r: Frame)
    ensures
        r@ == record(f@, name@, opt_error(error)),
{
    let mut f = f;
    let outcome = Outcome { name, error };
    let ghost before = outcomes(f.batch@);
    f.batch.push(outcome);
    assert(outcomes(f.batch@) =~= before.push(outcome@));
    f
}

fn call_turn(frame: Frame, task: &Task, hooks: bool) -> (t: FrameTurn)
    ensures
        t@ == (Turn {
            frame: frame@,
            notices: Seq::empty(),
            effect: Effect::Call(task@, hooks),
        }),
{
    FrameTurn { frame, notices: no_notices(), effect: Move::Call(task.clone(), hooks) }
}

fn ask_turn(frame: Frame, told: Vec<Notice>, request: Request) -> (t: FrameTurn)
    ensures
        t@ == (Turn { frame: frame@, notices: notices(told@), effect: Effect::Ask(request@) }),
{
    FrameTurn { frame, notices: told, effect: Move::Ask(request) }
}

fn step_fresh_turn(config: &PlzConfig, base: &str, f: Frame) -> (t: FrameTurn)
    ensures
        t@ == step_fresh(config@, base@, f@),
{
    match &f.task.run {
        Some(cmd) => {
            let w = wrap(env_of(&f.task), cmd.as_str());
            match full_command(w, &f.args) {
                Ok(line) => match parse_task_ref(line.as_str()) {
                    Some(r) => match resolve_task_ref(config, &r) {
                        Ok((task, display)) => call_turn(
                            Frame { stage: Stage::RunCall, name: display, ..f },
                            task,
                            true,
                        ),
                        Err(e) => quiet_turn(failing_frame(f, e)),
                    },
                    None => {
                        let dir = working_directory(base, &f.task.dir);
                        ask_turn(
                            Frame { stage: Stage::RunShell, command: line.clone(), ..f },
                            no_notices(),
                            Request::Shell { command: line, dir },
                        )
                    },
                },
                Err(e) => quiet_turn(failing_frame(f, e)),
            }
        },
        None => quiet_turn(begin_serial_frame(f)),
    }
}

fn step_shell_done_turn(f: Frame, event: &Event, serial: bool) -> (t: FrameTurn)
    ensures
        t@ == step_shell_done(
            f@,
            event@,
            if serial {
                FrameView { stage: Stage::SerialAt, ..f@ }
            } else {
                begin_serial(f@)
            },
        ),
{
    match shell_outcome(event, &f.command) {
        Some(e) => quiet_turn(failing_frame(f, e)),
        None => if serial {
            quiet_turn(staged(f, Stage::SerialAt))
        } else {
            quiet_turn(begin_serial_frame(f))
        },
    }
}

fn step_serial_at_turn(config: &PlzConfig, base: &str, f: Frame) -> (t: FrameTurn)
    ensures
        t@ == step_serial_at(config@, base@, f@),
{
    let item = match &f.task.run_serial {
        Some(cmds) => if f.at < cmds.len() {
            Some(wrap(env_of(&f.task), cmds[f.at].as_str()))
        } else {
            None
        },
        None => None,
    };
    match item {
        Some(w) => {
            let next = f.at + 1;
            match parse_task_ref(w.as_str()) {
                Some(r) => match resolve_task_ref(config, &r) {
                    Ok((task, display)) => call_turn(
                        Frame { stage: Stage::SerialCall, name: display, at: next, ..f },
                        task,
                        false,
                    ),
                    Err(e) => quiet_turn(
                        record_outcome(Frame { at: next, ..f }, r.display(), Some(e)),
                    ),
                },
                None => {
                    let dir = working_directory(base, &f.task.dir);
                    ask_turn(
                        Frame { stage: Stage::SerialShell, command: w.clone(), at: next, ..f },
                        no_notices(),
                        Request::Shell { command: w, dir },
                    )
                },
            }
        },
        None => end_block_turn(f, true),
    }
}

fn step_spawn_at_turn(base: &str, f: Frame) -> (t: FrameTurn)
    ensures
        t@ == step_spawn_at(base@, f@),
{
    if f.at < f.shells.len() {
        let command = f.shells[f.at].clone();
        let dir = working_directory(base, &f.task.dir);
        let next = f.at + 1;
        ask_turn(
            Frame { stage: Stage::Spawning, at: next, command: command.clone(), ..f },
            no_notices(),
            Request::Spawn { command, dir },
        )
    } else {
        quiet_turn(Frame { stage: Stage::CallAt, at: 0, ..f })
    }
}

fn step_spawning_turn(f: Frame, event: &Event) -> (t: FrameTurn)
    ensures
        t@ == step_spawning(f@, event@),
{
    match event {
        Event::Started { id } => {
            let mut f = f;
            let child = Child { command: f.command.clone(), id: *id };
            let ghost before = children(f.started@);
            f.started.push(child);
            assert(children(f.started@) =~= before.push(child@));
            quiet_turn(staged(f, Stage::SpawnAt))
        },
        _ => {
            let e = RunError::Io(fault_text(event));
            quiet_turn(failing_frame(f, e))
        },
    }
}

fn step_call_at_turn(config: &PlzConfig, f: Frame) -> (t: FrameTurn)
    ensures
        t@ == step_call_at(config@, f@),
{
    if f.at < f.refs.len() {
        let r = f.refs[f.at].clone();
        let next = f.at + 1;
        match resolve_task_ref(config, &r) {
            Ok((task, display)) => call_turn(
                Frame { stage: Stage::Calling, name: display, at: next, ..f },
                task,
                false,
            ),
            Err(e) => quiet_turn(record_outcome(Frame { at: next, ..f }, r.display(), Some(e))),
        }
    } else {
        quiet_turn(Frame { stage: Stage::WaitAt, at: 0, ..f })
    }
}

fn step_wait_at_turn(f: Frame) -> (t: FrameTurn)
    ensures
        t@ == step_wait_at(f@),
{
    if f.at < f.started.len() {
        let command = f.started[f.at].command.clone();
        let id = f.started[f.at].id;
        let next = f.at + 1;
        ask_turn(
            Frame { stage: Stage::Waiting, at: next, command, ..f },
            no_notices(),
            Request::Wait { id },
        )
    } else {
        end_block_turn(f, false)
    }
}

fn step_waiting_turn(f: Frame, event: &Event) -> (t: FrameTurn)
    ensures
        t@ == step_waiting(f@, event@),
{
    match event {
        Event::Exited { code } => {
            let error = shell_outcome(event, &f.command);
            let name = f.command.clone();
            quiet_turn(record_outcome(staged(f, Stage::WaitAt), name, error))
        },
        _ => {
            let e = RunError::Io(fault_text(event));
            quiet_turn(failing_frame(f, e))
        },
    }
}

fn env_text(env: &Option<String>) -> (r: Option<&str>)
    ensures
        match r {
            Some(e) => opt_text(*env) == Some(e@),
            None => env is None,
        },
{
    match env {
        Some(e) => Some(e.as_str()),
        None => None,
    }
}

fn plan_hook(hook: &FailHook, env: &Option<String>, interactive: bool) -> (p: Plan)
    ensures
        p@ == hook_plan(hook@, opt_text(*env), interactive),
{
    match hook {
        FailHook::Command(c) => Plan::Run(wrap(env_text(env), c.as_str())),
        FailHook::Message(_) => Plan::Nothing,
        FailHook::Suggest { suggest_command } => {
            if interactive {
                Plan::Offer(wrap(env_text(env), suggest_command.as_str()))
            } else {
                Plan::Nothing
            }
        },
    }
}

fn tell_hook(hook: &FailHook, env: &Option<String>, error: &RunError, interactive: bool) -> (v: Vec<
    Notice,
>)
    ensures
        notices(v@) == hook_notices(hook@, opt_text(*env), error@, interactive),
{
    let mut v: Vec<Notice> = Vec::new();
    let failed = Notice::TaskFailed { name: None, error: error.clone() };
    v.push(failed);
    match hook {
        FailHook::Command(c) => {
            let second = Notice::RunningHook(wrap(env_text(env), c.as_str()));
            v.push(second);
            assert(notices(v@) =~= seq![failed@, second@]);
        },
        FailHook::Message(m) => {
            let second = Notice::Warning(m.clone());
            v.push(second);
            assert(notices(v@) =~= seq![failed@, second@]);
        },
        FailHook::Suggest { suggest_command } => {
            if interactive {
                assert(notices(v@) =~= seq![failed@]);
            } else {
                let second = Notice::Suggestion(
                    wrap(env_text(env), suggest_command.as_str()),
                );
                v.push(second);
                assert(notices(v@) =~= seq![failed@, second@]);
            }
        },
    }
    v
}

/// Looks up the task whose fail hook answers for the failure recorded under `name`.
pub fn lookup_task_for_failure<'a>(config: &'a PlzConfig, name: &str) -> (r: Option<&'a Task>)
    ensures
        match r {
            Some(t) => failure_task(config@, name@) == Some(t@),
            None => failure_task(config@, name@) is None,
        },
{
    match split_once(name, ':') {
        Some((group, task)) => config.get_group_task(group.as_str(), task.as_str()),
        None => config.get_task(name),
    }
}

fn bare_failure_turn(g: Frame, name: String, error: RunError) -> (t: FrameTurn)
    ensures
        t@ == bare_failure(g@, name@, error@),
{
    let mut told: Vec<Notice> = Vec::new();
    let notice = Notice::TaskFailed { name: Some(name), error };
    told.push(notice);
    assert(notices(told@) =~= seq![notice@]);
    ask_turn(staged(g, Stage::ReplayNext), told, Request::Proceed)
}

fn step_replay_at_turn(config: &PlzConfig, base: &str, interactive: bool, f: Frame) -> (t:
    FrameTurn)
    ensures
        t@ == step_replay_at(config@, base@, interactive, f@),
{
    if f.at < f.failures.len() {
        let name = f.failures[f.at].name.clone();
        let error = f.failures[f.at].error.clone();
        let next = f.at + 1;
        let g = Frame { at: next, ..f };
        match lookup_task_for_failure(config, name.as_str()) {
            Some(task) => match &task.fail_hook {
                Some(hook) => {
                    let told = tell_hook(hook, &task.tool_env, &error, interactive);
                    let dir = working_directory(base, &task.dir);
                    match plan_hook(hook, &task.tool_env, interactive) {
                        Plan::Run(w) => ask_turn(
                            Frame {
                                stage: Stage::ReplayShell,
                                command: w.clone(),
                                dir: dir.clone(),
                                ..g
                            },
                            told,
                            Request::Shell { command: w, dir },
                        ),
                        Plan::Offer(w) => ask_turn(
                            Frame { stage: Stage::ReplayAsk, command: w.clone(), dir, ..g },
                            told,
                            Request::Confirm(Question::RunFix(w)),
                        ),
                        Plan::Nothing => ask_turn(
                            staged(g, Stage::ReplayNext),
                            told,
                            Request::Proceed,
                        ),
                    }
                },
                None => bare_failure_turn(g, name, error),
            },
            None => bare_failure_turn(g, name, error),
        }
    } else {
        quiet_turn(failing_frame(f, RunError::AggregatedFailure))
    }
}

fn step_asked_turn(f: Frame, event: &Event, fix: Stage, declined: Stage) -> (t: FrameTurn)
    ensures
        t@ == step_asked(f@, event@, fix, declined),
{
    match event {
        Event::Answer(true) => {
            let command = f.command.clone();
            let dir = f.dir.clone();
            ask_turn(staged(f, fix), no_notices(), Request::Shell { command, dir })
        },
        _ => quiet_turn(staged(f, declined)),
    }
}

fn step_replay_next_turn(interactive: bool, f: Frame) -> (t: FrameTurn)
    ensures
        t@ == step_replay_next(interactive, f@),
{
    if interactive && f.at < f.failures.len() {
        ask_turn(
            staged(f, Stage::ReplayContinue),
            no_notices(),
            Request::Confirm(Question::ContinueNext),
        )
    } else {
        quiet_turn(staged(f, Stage::ReplayAt))
    }
}

fn step_failing_turn(base: &str, interactive: bool, f: Frame) -> (t: FrameTurn)
    ensures
        t@ == step_failing(base@, interactive, f@),
{
    let handled = if f.hooks {
        match (&f.task.fail_hook, &f.error) {
            (Some(hook), Some(error)) => Some(
                (
                    tell_hook(hook, &f.task.tool_env, error, interactive),
                    plan_hook(hook, &f.task.tool_env, interactive),
                    working_directory(base, &f.task.dir),
                ),
            ),
            _ => None,
        }
    } else {
        None
    };
    match handled {
        Some((told, plan, dir)) => match plan {
            Plan::Run(w) => ask_turn(
                Frame { stage: Stage::HookShell, command: w.clone(), dir: dir.clone(), ..f },
                told,
                Request::Shell { command: w, dir },
            ),
            Plan::Offer(w) => ask_turn(
                Frame { stage: Stage::HookAsk, command: w.clone(), dir, ..f },
                told,
                Request::Confirm(Question::RunFix(w)),
            ),
            Plan::Nothing => ask_turn(staged(f, Stage::Finished), told, Request::Proceed),
        },
        None => quiet_turn(staged(f, Stage::Finished)),
    }
}

fn step_fixed_turn(f: Frame, event: &Event, replay: bool) -> (t: FrameTurn)
    ensures
        t@ == step_fixed(
            f@,
            event@,
            if replay {
                FrameView { stage: Stage::ReplayAt, ..f@ }
            } else {
                FrameView { stage: Stage::Finished, error: None, ..f@ }
            },
            if replay {
                Stage::ReplayNext
            } else {
                Stage::Finished
            },
        ),
{
    if shell_outcome(event, &f.command).is_none() {
        if replay {
            quiet_turn(staged(f, Stage::ReplayAt))
        } else {
            quiet_turn(Frame { stage: Stage::Finished, error: None, ..f })
        }
    } else {
        let mut told: Vec<Notice> = Vec::new();
        told.push(Notice::FixFailed);
        assert(notices(told@) =~= seq![NoticeView::FixFailed]);
        let stage = if replay {
            Stage::ReplayNext
        } else {
            Stage::Finished
        };
        ask_turn(staged(f, stage), told, Request::Proceed)
    }
}

fn step_continue_turn(f: Frame, event: &Event) -> (t: FrameTurn)
    ensures
        t@ == step_continue(f@, event@),
{
    match event {
        Event::Answer(true) => quiet_turn(staged(f, Stage::ReplayAt)),
        _ => quiet_turn(failing_frame(f, RunError::Aborted)),
    }
}

fn deliver_to(parent: Frame, error: Option<RunError>) -> (r: Frame)
    ensures
        r@ == deliver(parent@, opt_error(error)),
{
    match parent.stage {
        Stage::RunCall => match error {
            Some(e) => failing_frame(parent, e),
            None => begin_serial_frame(parent),
        },
        Stage::SerialCall => {
            let name = parent.name.clone();
            record_outcome(staged(parent, Stage::SerialAt), name, error)
        },
        Stage::Calling => {
            let name = parent.name.clone();
            record_outcome(staged(parent, Stage::CallAt), name, error)
        },
        _ => parent,
    }
}

fn frame_step_turn(
    config: &PlzConfig,
    base: &str,
    interactive: bool,
    f: Frame,
    event: &Event,
) -> (t: FrameTurn)
    ensures
        t@ == frame_step(config@, base@, interactive, f@, event@),
{
    reveal(frame_step);
    match f.stage {
        Stage::Fresh => step_fresh_turn(config, base, f),
        Stage::RunShell => step_shell_done_turn(f, event, false),
        Stage::RunCall => quiet_turn(deliver_to(f, None)),
        Stage::SerialAt => step_serial_at_turn(config, base, f),
        Stage::SerialShell => step_shell_done_turn(f, event, true),
        Stage::SerialCall => quiet_turn(deliver_to(f, None)),
        Stage::SpawnAt => step_spawn_at_turn(base, f),
        Stage::Spawning => step_spawning_turn(f, event),
        Stage::CallAt => step_call_at_turn(config, f),
        Stage::Calling => quiet_turn(deliver_to(f, None)),
        Stage::WaitAt => step_wait_at_turn(f),
        Stage::Waiting => step_waiting_turn(f, event),
        Stage::ReplayAt => step_replay_at_turn(config, base, interactive, f),
        Stage::ReplayShell => quiet_turn(staged(f, Stage::ReplayNext)),
        Stage::ReplayAsk => step_asked_turn(f, event, Stage::ReplayFix, Stage::ReplayNext),
        Stage::ReplayFix => step_fixed_turn(f, event, true),
        Stage::ReplayNext => step_replay_next_turn(interactive, f),
        Stage::ReplayContinue => step_continue_turn(f, event),
        Stage::Failing => step_failing_turn(base, interactive, f),
        Stage::HookShell => quiet_turn(staged(f, Stage::Finished)),
        Stage::HookAsk => step_asked_turn(f, event, Stage::HookFix, Stage::Finished),
        Stage::HookFix => step_fixed_turn(f, event, false),
        Stage::Finished => FrameTurn { frame: f, notices: no_notices(), effect: Move::Return },
    }
}

/// The views of a stack of frames.
pub open spec fn frames(v: Seq<Frame>) -> Seq<FrameView> {
    Seq::new(v.len(), |i: int| v[i]@)
}

/// A run of a task: the configuration that it reads and the state that
/// its steps change.
#[derive(Debug)]
pub struct Run<'a> {
    config: &'a PlzConfig,
    base: String,
    interactive: bool,
    stack: Vec<Frame>,
    failure: Option<RunError>,
}

/// What a step hands to the host: what to tell the user, in order, and
/// what to do next.
#[derive(Debug)]
pub struct Step {
    pub notices: Vec<Notice>,
    pub request: Request,
}

impl<'a> View for Run<'a> {
    type V = RunView;

    closed spec fn view(&self) -> RunView {
        RunView {
            base: self.base@,
            interactive: self.interactive,
            stack: frames(self.stack@),
            failure: opt_error(self.failure),
        }
    }
}

impl<'a> Run<'a> {
    /// The configuration that the run reads.
    pub closed spec fn config(&self) -> PlzConfigView {
        self.config@
    }

    /// A run that is about to enter `task`, with the task's own fail hook
    /// honoured and `args` as the extra arguments of its single command.
    pub fn new(
        config: &'a PlzConfig,
        task: &Task,
        base_dir: &str,
        interactive: bool,
        args: &Vec<String>,
    ) -> (run: Run<'a>)
        ensures
            run.config() == config@,
            run@ == start(task@, base_dir@, interactive, texts(args@)),
    {
        let mut stack: Vec<Frame> = Vec::new();
        let frame = new_frame(task.clone(), true, clone_list(args));
        stack.push(frame);
        assert(frames(stack@) =~= seq![frame@]);
        Run { config, base: base_dir.to_owned(), interactive, stack, failure: None }
    }

    /// Whether the run is over.
    pub fn is_over(&self) -> (r: bool)
        ensures
            r == (self@.stack.len() == 0),
    {
        self.stack.len() == 0
    }

    /// Takes one step: `event` is what came of the request of the step
    /// before (`Resume` for the first step). The step is the one that
    /// `advance` describes.
    pub fn step(&mut self, event: Event) -> (step: Step)
        ensures
            final(self).config() == old(self).config(),
            (Progress { run: final(self)@, notices: notices(step.notices@), request: step.request@ })
                == advance(old(self).config(), old(self)@, event@),
    {
        let ghost before = frames(self.stack@);
        match self.stack.pop() {
            None => {
                let result = match &self.failure {
                    Some(e) => Err(e.clone()),
                    None => Ok(()),
                };
                assert(frames(self.stack@) =~= before);
                Step { notices: no_notices(), request: Request::Done(result) }
            },
            Some(top) => {
                let ghost below = before.drop_last();
                assert(frames(self.stack@) =~= below);
                assert(before.last() == top@);
                let turn = frame_step_turn(
                    self.config,
                    self.base.as_str(),
                    self.interactive,
                    top,
                    &event,
                );
                let FrameTurn { frame, notices: told, effect } = turn;
                match effect {
                    Move::Ask(request) => {
                        self.stack.push(frame);
                        assert(frames(self.stack@) =~= below.push(frame@));
                        Step { notices: told, request }
                    },
                    Move::Call(task, hooks) => {
                        let none: Vec<String> = Vec::new();
                        assert(texts(none@) =~= Seq::<Seq<char>>::empty());
                        let child = new_frame(task, hooks, none);
                        self.stack.push(frame);
                        self.stack.push(child);
                        assert(frames(self.stack@) =~= below.push(frame@).push(child@));
                        Step { notices: told, request: Request::Proceed }
                    },
                    Move::Return => {
                        match self.stack.pop() {
                            None => {
                                let result = match &frame.error {
                                    Some(e) => Err(e.clone()),
                                    None => Ok(()),
                                };
                                self.failure = frame.error;
                                assert(frames(self.stack@) =~= below);
                                Step { notices: told, request: Request::Done(result) }
                            },
                            Some(parent) => {
                                assert(below.last() == parent@);
                                let resumed = deliver_to(parent, frame.error);
                                self.stack.push(resumed);
                                assert(frames(self.stack@) =~= below.drop_last().push(resumed@));
                                Step { notices: told, request: Request::Proceed }
                            },
                        }
                    },
                }
            },
        }
    }
}

} // verus!
