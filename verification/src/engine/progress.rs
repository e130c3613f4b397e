//! Every task takes only finitely many steps of its own. A run can go on
//! for ever only by entering tasks again and again, which takes
//! references that lead back to where they came from.

use crate::config::{PlzConfigView, TaskView};
use crate::engine::laws::lemma_failure_is_kept;
use crate::engine::model::{
    advance, begin_parallel, begin_serial, deliver, failed, frame_step, fresh, lemma_at_call_at,
    lemma_at_calling, lemma_at_failing, lemma_at_finished, lemma_at_fresh, lemma_at_hook_ask,
    lemma_at_hook_fix, lemma_at_hook_shell, lemma_at_replay_ask, lemma_at_replay_at,
    lemma_at_replay_continue, lemma_at_replay_fix, lemma_at_replay_next, lemma_at_replay_shell,
    lemma_at_run_call, lemma_at_run_shell, lemma_at_serial_at, lemma_at_serial_call,
    lemma_at_serial_shell, lemma_at_spawn_at, lemma_at_spawning, lemma_at_wait_at,
    lemma_at_waiting, refs_of, shells_of, start, Effect, EventView, FrameView, OutcomeView,
    RequestView, RunView, Stage,
};
use crate::engine::shell::command_line;
use crate::runner::{parse_ref, wrapped, RunErrorView, TaskRefView};
use vstd::prelude::*;

verus! {

/// How many items of a list of `len` items are still to be taken up at
/// the position `at`.
pub open spec fn left(at: int, len: int) -> int {
    if 0 <= at < len {
        len - at
    } else {
        0
    }
}

/// A bound on the steps of a replay in which `failures` failures are
/// still to be taken up, and of what follows it.
pub open spec fn replay_steps(failures: int) -> int {
    5 * failures + 4
}

/// A bound on the steps of a frame from the waits on: `waits` commands
/// are still to be waited for, `failures` failures are recorded.
pub open spec fn wait_steps(waits: int, failures: int) -> int {
    2 * waits + replay_steps(failures + waits) + 1
}

/// A bound on the steps of a frame from the references of the parallel
/// list on.
pub open spec fn call_steps(calls: int, waits: int, failures: int) -> int {
    2 * calls + wait_steps(waits, failures + calls) + 1
}

/// A bound on the steps of a frame from the start of the plain commands
/// of the parallel list on.
pub open spec fn spawn_steps(spawns: int, calls: int, started: int, failures: int) -> int {
    2 * spawns + call_steps(calls, started + spawns, failures) + 1
}

/// A bound on the steps of the parallel list of `task` and of what
/// follows it.
pub open spec fn parallel_steps(task: TaskView) -> int {
    let cmds = match task.run_parallel {
        Some(c) => c,
        None => Seq::empty(),
    };
    spawn_steps(
        shells_of(task.tool_env, cmds).len() as int,
        refs_of(task.tool_env, cmds).len() as int,
        0,
        0,
    )
}

/// A bound on the steps of a frame from the serial list on.
pub open spec fn serial_steps(task: TaskView, items: int, failures: int) -> int {
    2 * items + replay_steps(failures + items) + parallel_steps(task) + 1
}

/// The length of the serial list of `task`.
pub open spec fn serial_len(task: TaskView) -> int {
    match task.run_serial {
        Some(c) => c.len() as int,
        None => 0,
    }
}

/// A bound on the steps that a frame still takes: it tells how far the
/// task is from its end.
pub open spec fn weight(f: FrameView) -> int {
    let failures = failed(f.batch).len() as int;
    match f.stage {
        Stage::Finished => 0,
        Stage::HookFix => 1,
        Stage::HookShell => 1,
        Stage::HookAsk => 2,
        Stage::Failing => 3,
        Stage::ReplayAt => replay_steps(left(f.at, f.failures.len() as int)),
        Stage::ReplayContinue => replay_steps(left(f.at, f.failures.len() as int)) + 1,
        Stage::ReplayNext => replay_steps(left(f.at, f.failures.len() as int)) + 2,
        Stage::ReplayShell => replay_steps(left(f.at, f.failures.len() as int)) + 3,
        Stage::ReplayFix => replay_steps(left(f.at, f.failures.len() as int)) + 3,
        Stage::ReplayAsk => replay_steps(left(f.at, f.failures.len() as int)) + 4,
        Stage::WaitAt => wait_steps(left(f.at, f.started.len() as int), failures),
        Stage::Waiting => wait_steps(left(f.at, f.started.len() as int), failures + 1) + 1,
        Stage::CallAt => call_steps(
            left(f.at, f.refs.len() as int),
            f.started.len() as int,
            failures,
        ),
        Stage::Calling => call_steps(
            left(f.at, f.refs.len() as int),
            f.started.len() as int,
            failures + 1,
        ) + 1,
        Stage::SpawnAt => spawn_steps(
            left(f.at, f.shells.len() as int),
            f.refs.len() as int,
            f.started.len() as int,
            failures,
        ),
        Stage::Spawning => spawn_steps(
            left(f.at, f.shells.len() as int),
            f.refs.len() as int,
            f.started.len() as int + 1,
            failures,
        ) + 1,
        Stage::SerialAt => serial_steps(f.task, left(f.at, serial_len(f.task)), failures),
        Stage::SerialShell => serial_steps(f.task, left(f.at, serial_len(f.task)), failures) + 1,
        Stage::SerialCall => serial_steps(f.task, left(f.at, serial_len(f.task)), failures + 1)
            + 1,
        Stage::RunShell => serial_steps(f.task, serial_len(f.task), 0) + 1,
        Stage::RunCall => serial_steps(f.task, serial_len(f.task), 0) + 1,
        Stage::Fresh => serial_steps(f.task, serial_len(f.task), 0) + 2,
    }
}

/// The weight is never negative.
pub proof fn lemma_weight_bounds(f: FrameView)
    ensures
        weight(f) >= 0,
        f.stage != Stage::Finished ==> weight(f) >= 1,
{
}

/// A frame that takes up where a task that it had entered has left is
/// nearer to its end than it was.
pub proof fn lemma_deliver_decreases(parent: FrameView, error: Option<RunErrorView>)
    requires
        parent.stage == Stage::RunCall || parent.stage == Stage::SerialCall || parent.stage
            == Stage::Calling,
    ensures
        weight(deliver(parent, error)) < weight(parent),
        deliver(parent, error).task == parent.task,
{
    lemma_failure_is_kept(parent.batch, parent.name, error);
    assert(failed(Seq::<OutcomeView>::empty()).len() == 0);
}

/// Every step of a task brings it nearer to its end: the weight of its
/// frame goes down with each step, until the task is over.
pub proof fn lemma_step_decreases(
    config: PlzConfigView,
    base: Seq<char>,
    interactive: bool,
    f: FrameView,
    event: EventView,
)
    requires
        f.stage != Stage::Finished,
    ensures
        weight(frame_step(config, base, interactive, f, event).frame) < weight(f),
        frame_step(config, base, interactive, f, event).frame.task == f.task,
        !(frame_step(config, base, interactive, f, event).effect is Return),
{
    assert(failed(Seq::<OutcomeView>::empty()).len() == 0);
    match f.stage {
        Stage::Fresh => lemma_at_fresh(config, base, interactive, f, event),
        Stage::RunShell => lemma_at_run_shell(config, base, interactive, f, event),
        Stage::RunCall => {
            lemma_at_run_call(config, base, interactive, f, event);
            lemma_deliver_decreases(f, None);
        },
        Stage::SerialAt => {
            lemma_at_serial_at(config, base, interactive, f, event);
            lemma_serial_at(config, base, f);
        },
        Stage::SerialShell => lemma_at_serial_shell(config, base, interactive, f, event),
        Stage::SerialCall => {
            lemma_at_serial_call(config, base, interactive, f, event);
            lemma_deliver_decreases(f, None);
        },
        Stage::SpawnAt => lemma_at_spawn_at(config, base, interactive, f, event),
        Stage::Spawning => lemma_at_spawning(config, base, interactive, f, event),
        Stage::CallAt => {
            lemma_at_call_at(config, base, interactive, f, event);
            if 0 <= f.at < f.refs.len() {
                let r = f.refs[f.at];
                lemma_failure_is_kept(f.batch, r.display(), Some(r.missing()));
            }
        },
        Stage::Calling => {
            lemma_at_calling(config, base, interactive, f, event);
            lemma_deliver_decreases(f, None);
        },
        Stage::WaitAt => lemma_at_wait_at(config, base, interactive, f, event),
        Stage::Waiting => {
            lemma_at_waiting(config, base, interactive, f, event);
            lemma_failure_is_kept(
                f.batch,
                f.command,
                crate::engine::model::shell_failure(event, f.command),
            );
        },
        Stage::ReplayAt => lemma_at_replay_at(config, base, interactive, f, event),
        Stage::ReplayShell => lemma_at_replay_shell(config, base, interactive, f, event),
        Stage::ReplayAsk => lemma_at_replay_ask(config, base, interactive, f, event),
        Stage::ReplayFix => lemma_at_replay_fix(config, base, interactive, f, event),
        Stage::ReplayNext => lemma_at_replay_next(config, base, interactive, f, event),
        Stage::ReplayContinue => lemma_at_replay_continue(config, base, interactive, f, event),
        Stage::Failing => lemma_at_failing(config, base, interactive, f, event),
        Stage::HookShell => lemma_at_hook_shell(config, base, interactive, f, event),
        Stage::HookAsk => lemma_at_hook_ask(config, base, interactive, f, event),
        Stage::HookFix => lemma_at_hook_fix(config, base, interactive, f, event),
        Stage::Finished => {},
    }
}

proof fn lemma_serial_at(config: PlzConfigView, base: Seq<char>, f: FrameView)
    requires
        f.stage == Stage::SerialAt,
    ensures
        weight(crate::engine::model::step_serial_at(config, base, f).frame) < weight(f),
{
    assert(failed(Seq::<OutcomeView>::empty()).len() == 0);
    if f.task.run_serial is Some && 0 <= f.at < f.task.run_serial->0.len() {
        let w = wrapped(f.task.tool_env, f.task.run_serial->0[f.at]);
        match parse_ref(w) {
            Some(r) => {
                lemma_failure_is_kept(f.batch, r.display(), Some(r.missing()));
            },
            None => {},
        }
    } else {
        assert(left(f.at, serial_len(f.task)) == 0);
        let p = begin_parallel(f);
        assert(weight(p) == parallel_steps(f.task));
    }
}

/// Whether `task`, with the extra arguments `args`, holds no reference:
/// neither its single command nor a command of its lists points to a task.
pub open spec fn calls_nothing(task: TaskView, args: Seq<Seq<char>>) -> bool {
    &&& task.run is Some ==> (match command_line(wrapped(task.tool_env, task.run->0), args) {
        Ok(line) => parse_ref(line) is None,
        Err(_) => true,
    })
    &&& task.run_serial is Some ==> forall|i: int|
        0 <= i < task.run_serial->0.len() ==> parse_ref(
            wrapped(task.tool_env, #[trigger] task.run_serial->0[i]),
        ) is None
    &&& task.run_parallel is Some ==> refs_of(task.tool_env, task.run_parallel->0).len() == 0
}

/// A frame of a task without references enters no task, whatever it is
/// answered, and stays a frame of that task.
proof fn lemma_step_calls_nothing(
    config: PlzConfigView,
    base: Seq<char>,
    interactive: bool,
    f: FrameView,
    event: EventView,
)
    requires
        calls_nothing(f.task, f.args),
        f.refs.len() == 0,
    ensures
        !(frame_step(config, base, interactive, f, event).effect is Call),
        frame_step(config, base, interactive, f, event).frame.args == f.args,
        frame_step(config, base, interactive, f, event).frame.refs.len() == 0,
{
    assert(refs_of(f.task.tool_env, Seq::<Seq<char>>::empty()).len() == 0);
    match f.stage {
        Stage::Fresh => lemma_at_fresh(config, base, interactive, f, event),
        Stage::RunShell => lemma_at_run_shell(config, base, interactive, f, event),
        Stage::RunCall => lemma_at_run_call(config, base, interactive, f, event),
        Stage::SerialAt => lemma_at_serial_at(config, base, interactive, f, event),
        Stage::SerialShell => lemma_at_serial_shell(config, base, interactive, f, event),
        Stage::SerialCall => lemma_at_serial_call(config, base, interactive, f, event),
        Stage::SpawnAt => lemma_at_spawn_at(config, base, interactive, f, event),
        Stage::Spawning => lemma_at_spawning(config, base, interactive, f, event),
        Stage::CallAt => lemma_at_call_at(config, base, interactive, f, event),
        Stage::Calling => lemma_at_calling(config, base, interactive, f, event),
        Stage::WaitAt => lemma_at_wait_at(config, base, interactive, f, event),
        Stage::Waiting => lemma_at_waiting(config, base, interactive, f, event),
        Stage::ReplayAt => lemma_at_replay_at(config, base, interactive, f, event),
        Stage::ReplayShell => lemma_at_replay_shell(config, base, interactive, f, event),
        Stage::ReplayAsk => lemma_at_replay_ask(config, base, interactive, f, event),
        Stage::ReplayFix => lemma_at_replay_fix(config, base, interactive, f, event),
        Stage::ReplayNext => lemma_at_replay_next(config, base, interactive, f, event),
        Stage::ReplayContinue => lemma_at_replay_continue(config, base, interactive, f, event),
        Stage::Failing => lemma_at_failing(config, base, interactive, f, event),
        Stage::HookShell => lemma_at_hook_shell(config, base, interactive, f, event),
        Stage::HookAsk => lemma_at_hook_ask(config, base, interactive, f, event),
        Stage::HookFix => lemma_at_hook_fix(config, base, interactive, f, event),
        Stage::Finished => lemma_at_finished(config, base, interactive, f, event),
    }
}

/// Whether `run` is over, or is at a single frame of the task `task`
/// with the arguments `args` that holds no reference and whose weight
/// is at most `bound`.
pub open spec fn nearing(run: RunView, task: TaskView, args: Seq<Seq<char>>, bound: int) -> bool {
    run.stack.len() == 0 || (run.stack.len() == 1 && run.stack[0].task == task
        && run.stack[0].args == args && run.stack[0].refs.len() == 0 && weight(run.stack[0])
        <= bound)
}

proof fn lemma_advance_nears(
    config: PlzConfigView,
    run: RunView,
    event: EventView,
    task: TaskView,
    args: Seq<Seq<char>>,
    bound: int,
)
    requires
        calls_nothing(task, args),
        nearing(run, task, args, bound),
    ensures
        nearing(advance(config, run, event).run, task, args, bound - 1),
{
    if run.stack.len() == 1 {
        let f = run.stack[0];
        assert(run.stack.last() == f);
        assert(run.stack.drop_last() =~= Seq::<FrameView>::empty());
        lemma_step_calls_nothing(config, run.base, run.interactive, f, event);
        if f.stage == Stage::Finished {
            lemma_at_finished(config, run.base, run.interactive, f, event);
        } else {
            lemma_step_decreases(config, run.base, run.interactive, f, event);
            let t = frame_step(config, run.base, run.interactive, f, event);
            assert(advance(config, run, event).run.stack =~= seq![t.frame]);
        }
    }
}

/// The commands of the parallel list of `task`.
pub open spec fn parallel_commands(task: TaskView) -> Seq<Seq<char>> {
    match task.run_parallel {
        Some(c) => c,
        None => Seq::empty(),
    }
}

/// Whether `task`, with the extra arguments `args`, holds the reference
/// `r`: as its single command, or among the commands of its lists.
pub open spec fn mentions(task: TaskView, args: Seq<Seq<char>>, r: TaskRefView) -> bool {
    ||| task.run is Some && (match command_line(wrapped(task.tool_env, task.run->0), args) {
        Ok(line) => parse_ref(line) == Some(r),
        Err(_) => false,
    })
    ||| task.run_serial is Some && exists|i: int|
        0 <= i < task.run_serial->0.len() && parse_ref(
            wrapped(task.tool_env, #[trigger] task.run_serial->0[i]),
        ) == Some(r)
    ||| refs_of(task.tool_env, parallel_commands(task)).contains(r)
}

/// Whether `task`, with the extra arguments `args`, may enter `other`:
/// whether it holds a reference that points to `other`.
pub open spec fn enters(
    config: PlzConfigView,
    task: TaskView,
    args: Seq<Seq<char>>,
    other: TaskView,
) -> bool {
    exists|r: TaskRefView| #[trigger] r.target(config) == Some(other) && mentions(task, args, r)
}

/// Whether a reference points to `task`.
pub open spec fn is_target(config: PlzConfigView, task: TaskView) -> bool {
    exists|r: TaskRefView| #[trigger] r.target(config) == Some(task)
}

/// Whether `rank` ranks the tasks so that references lead downwards: the
/// task `task` with the arguments `args`, and every task that a
/// reference points to, has a higher rank than each task it may enter.
/// There is no such ranking where a chain of references leads back to
/// where it came from.
pub open spec fn ranked(
    config: PlzConfigView,
    rank: spec_fn(TaskView) -> nat,
    task: TaskView,
    args: Seq<Seq<char>>,
) -> bool {
    &&& forall|u: TaskView| #[trigger] enters(config, task, args, u) ==> rank(u) < rank(task)
    &&& forall|t: TaskView, u: TaskView|
        is_target(config, t) && #[trigger] enters(config, t, Seq::empty(), u) ==> rank(u) < rank(
            t,
        )
}

/// Whether the frame `f` belongs to a run of `task` with `args`: it is
/// a frame of that task with those arguments, or of a task that a
/// reference points to, without arguments; and the references that it
/// holds are those of the parallel list of its task, if it holds any.
pub open spec fn belongs(
    config: PlzConfigView,
    task: TaskView,
    args: Seq<Seq<char>>,
    f: FrameView,
) -> bool {
    &&& (f.task == task && f.args == args) || (is_target(config, f.task) && f.args
        == Seq::<Seq<char>>::empty())
    &&& f.refs.len() == 0 || f.refs == refs_of(f.task.tool_env, parallel_commands(f.task))
}

/// The run after `n` events of the stream `events`, from the event at
/// position `k` on.
pub open spec fn run_on(
    config: PlzConfigView,
    run: RunView,
    events: spec_fn(nat) -> EventView,
    k: nat,
    n: nat,
) -> RunView
    decreases n,
{
    if n == 0 {
        run
    } else {
        run_on(config, advance(config, run, events(k)).run, events, k + 1, (n - 1) as nat)
    }
}

proof fn lemma_run_on_sum(
    config: PlzConfigView,
    run: RunView,
    events: spec_fn(nat) -> EventView,
    k: nat,
    a: nat,
    b: nat,
)
    ensures
        run_on(config, run, events, k, a + b) == run_on(
            config,
            run_on(config, run, events, k, a),
            events,
            k + a,
            b,
        ),
    decreases a,
{
    if a > 0 {
        lemma_run_on_sum(
            config,
            advance(config, run, events(k)).run,
            events,
            k + 1,
            (a - 1) as nat,
            b,
        );
    }
}

/// What a frame that belongs to a run enters is a task that its own
/// task may enter, and the frame goes on belonging to the run.
proof fn lemma_step_belongs(
    config: PlzConfigView,
    base: Seq<char>,
    interactive: bool,
    task: TaskView,
    args: Seq<Seq<char>>,
    f: FrameView,
    event: EventView,
)
    requires
        belongs(config, task, args, f),
    ensures
        ({
            let t = frame_step(config, base, interactive, f, event);
            &&& belongs(config, task, args, t.frame)
            &&& t.effect matches Effect::Call(u, hooks) ==> enters(config, f.task, f.args, u)
                && is_target(config, u) && (t.frame.stage == Stage::RunCall || t.frame.stage
                == Stage::SerialCall || t.frame.stage == Stage::Calling)
        }),
{
    assert(refs_of(f.task.tool_env, Seq::<Seq<char>>::empty()).len() == 0);
    match f.stage {
        Stage::Fresh => {
            lemma_at_fresh(config, base, interactive, f, event);
            let t = frame_step(config, base, interactive, f, event);
            if t.effect is Call {
                let line = command_line(wrapped(f.task.tool_env, f.task.run->0), f.args)->Ok_0;
                let r = parse_ref(line)->0;
                assert(r.target(config) == Some(t.effect->Call_0));
                assert(mentions(f.task, f.args, r));
            }
        },
        Stage::RunShell => lemma_at_run_shell(config, base, interactive, f, event),
        Stage::RunCall => lemma_at_run_call(config, base, interactive, f, event),
        Stage::SerialAt => {
            lemma_at_serial_at(config, base, interactive, f, event);
            let t = frame_step(config, base, interactive, f, event);
            if t.effect is Call {
                let r = parse_ref(wrapped(f.task.tool_env, f.task.run_serial->0[f.at]))->0;
                assert(r.target(config) == Some(t.effect->Call_0));
                assert(mentions(f.task, f.args, r));
            }
        },
        Stage::SerialShell => lemma_at_serial_shell(config, base, interactive, f, event),
        Stage::SerialCall => lemma_at_serial_call(config, base, interactive, f, event),
        Stage::SpawnAt => lemma_at_spawn_at(config, base, interactive, f, event),
        Stage::Spawning => lemma_at_spawning(config, base, interactive, f, event),
        Stage::CallAt => {
            lemma_at_call_at(config, base, interactive, f, event);
            let t = frame_step(config, base, interactive, f, event);
            if t.effect is Call {
                let r = f.refs[f.at];
                assert(r.target(config) == Some(t.effect->Call_0));
                assert(refs_of(f.task.tool_env, parallel_commands(f.task)).contains(r));
                assert(mentions(f.task, f.args, r));
            }
        },
        Stage::Calling => lemma_at_calling(config, base, interactive, f, event),
        Stage::WaitAt => lemma_at_wait_at(config, base, interactive, f, event),
        Stage::Waiting => lemma_at_waiting(config, base, interactive, f, event),
        Stage::ReplayAt => lemma_at_replay_at(config, base, interactive, f, event),
        Stage::ReplayShell => lemma_at_replay_shell(config, base, interactive, f, event),
        Stage::ReplayAsk => lemma_at_replay_ask(config, base, interactive, f, event),
        Stage::ReplayFix => lemma_at_replay_fix(config, base, interactive, f, event),
        Stage::ReplayNext => lemma_at_replay_next(config, base, interactive, f, event),
        Stage::ReplayContinue => lemma_at_replay_continue(config, base, interactive, f, event),
        Stage::Failing => lemma_at_failing(config, base, interactive, f, event),
        Stage::HookShell => lemma_at_hook_shell(config, base, interactive, f, event),
        Stage::HookAsk => lemma_at_hook_ask(config, base, interactive, f, event),
        Stage::HookFix => lemma_at_hook_fix(config, base, interactive, f, event),
        Stage::Finished => lemma_at_finished(config, base, interactive, f, event),
    }
}

/// Whether `end` is what `run` comes to when the frame on top of its
/// stack is left with `error`: the frame is gone, and the frame below,
/// if there is one, has taken up where it had left.
pub open spec fn left_with(run: RunView, end: RunView, error: Option<RunErrorView>) -> bool {
    &&& end.base == run.base
    &&& end.interactive == run.interactive
    &&& run.stack.len() == 1 ==> end.stack.len() == 0 && end.failure == error
    &&& run.stack.len() >= 2 ==> end.stack == run.stack.drop_last().drop_last().push(
        deliver(run.stack[run.stack.len() - 2], error),
    )
}

/// Where references lead downwards, the task on top of the stack is
/// left after finitely many steps, whatever the host answers.
proof fn lemma_frame_leaves(
    config: PlzConfigView,
    rank: spec_fn(TaskView) -> nat,
    task: TaskView,
    args: Seq<Seq<char>>,
    run: RunView,
    events: spec_fn(nat) -> EventView,
    k: nat,
) -> (n: nat)
    requires
        ranked(config, rank, task, args),
        run.stack.len() > 0,
        belongs(config, task, args, run.stack.last()),
    ensures
        n >= 1,
        exists|error: Option<RunErrorView>| #[trigger]
            left_with(run, run_on(config, run, events, k, n), error),
    decreases rank(run.stack.last().task), weight(run.stack.last()),
{
    let f = run.stack.last();
    let below = run.stack.drop_last();
    let event = events(k);
    let p = advance(config, run, event);
    let t = frame_step(config, run.base, run.interactive, f, event);
    lemma_weight_bounds(f);
    assert(run_on(config, p.run, events, k + 1, 0) == p.run);
    if f.stage == Stage::Finished {
        lemma_at_finished(config, run.base, run.interactive, f, event);
        assert(run_on(config, run, events, k, 1) == p.run);
        if run.stack.len() >= 2 {
            assert(below.last() == run.stack[run.stack.len() - 2]);
        }
        assert(left_with(run, p.run, f.error));
        1
    } else {
        lemma_step_decreases(config, run.base, run.interactive, f, event);
        lemma_step_belongs(config, run.base, run.interactive, task, args, f, event);
        lemma_weight_bounds(t.frame);
        match t.effect {
            Effect::Ask(request) => {
                let next = p.run;
                assert(next.stack.last() == t.frame);
                assert(next.stack.drop_last() =~= below);
                let m = lemma_frame_leaves(config, rank, task, args, next, events, k + 1);
                let end = run_on(config, next, events, k + 1, m);
                assert(run_on(config, run, events, k, m + 1) == end);
                let error = choose|error: Option<RunErrorView>| #[trigger]
                    left_with(next, end, error);
                if run.stack.len() >= 2 {
                    assert(next.stack[next.stack.len() - 2] == run.stack[run.stack.len() - 2]);
                }
                assert(left_with(run, end, error));
                m + 1
            },
            Effect::Call(u, hooks) => {
                let entered = p.run;
                let child = fresh(u, hooks, Seq::empty());
                assert(entered.stack.last() == child);
                assert(entered.stack.drop_last() =~= below.push(t.frame));
                assert(enters(config, f.task, f.args, u));
                assert(rank(u) < rank(f.task));
                assert(belongs(config, task, args, child));
                let a = lemma_frame_leaves(config, rank, task, args, entered, events, k + 1);
                let back = run_on(config, entered, events, k + 1, a);
                let error = choose|error: Option<RunErrorView>| #[trigger]
                    left_with(entered, back, error);
                assert(entered.stack[entered.stack.len() - 2] == t.frame);
                let resumed = deliver(t.frame, error);
                assert(back.stack =~= below.push(resumed));
                lemma_deliver_decreases(t.frame, error);
                lemma_delivered_belongs(config, task, args, t.frame, error);
                assert(back.stack.last() == resumed);
                let b = lemma_frame_leaves(config, rank, task, args, back, events, k + 1 + a);
                let end = run_on(config, back, events, k + 1 + a, b);
                lemma_run_on_sum(config, entered, events, k + 1, a, b);
                assert(run_on(config, run, events, k, a + b + 1) == end);
                let last = choose|last: Option<RunErrorView>| #[trigger]
                    left_with(back, end, last);
                if run.stack.len() >= 2 {
                    assert(back.stack[back.stack.len() - 2] == run.stack[run.stack.len() - 2]);
                    assert(back.stack.drop_last() =~= below);
                }
                assert(left_with(run, end, last));
                a + b + 1
            },
            Effect::Return => {
                1
            },
        }
    }
}

proof fn lemma_delivered_belongs(
    config: PlzConfigView,
    task: TaskView,
    args: Seq<Seq<char>>,
    parent: FrameView,
    error: Option<RunErrorView>,
)
    requires
        belongs(config, task, args, parent),
    ensures
        belongs(config, task, args, deliver(parent, error)),
{
}

/// Where references lead downwards, every run ends, whatever its host
/// answers: of every stream of events a finite number brings the run to
/// its end. A run can go on for ever only where a chain of references
/// leads back to where it came from.
pub proof fn lemma_ranked_run_ends(
    config: PlzConfigView,
    rank: spec_fn(TaskView) -> nat,
    task: TaskView,
    base: Seq<char>,
    interactive: bool,
    args: Seq<Seq<char>>,
    events: spec_fn(nat) -> EventView,
) -> (n: nat)
    requires
        ranked(config, rank, task, args),
    ensures
        run_on(config, start(task, base, interactive, args), events, 0, n).stack.len() == 0,
{
    let run = start(task, base, interactive, args);
    assert(run.stack.last() == fresh(task, true, args));
    let n = lemma_frame_leaves(config, rank, task, args, run, events, 0);
    n
}

/// Whether `event` tells the frame `f` that what it waits for went
/// well: the command it runs or waits for ended with the exit code zero,
/// the command it starts was started. A frame that waits for nothing of
/// the kind is told nothing by any event.
pub open spec fn pleasing(f: FrameView, event: EventView) -> bool {
    match f.stage {
        Stage::RunShell | Stage::SerialShell | Stage::Waiting => event == (EventView::Exited {
            code: Some(0i32),
        }),
        Stage::Spawning => event is Started,
        _ => true,
    }
}

/// Whether the frame `f` of `task` is on its way to success: nothing has
/// failed, and its own phases are not over but in success.
pub open spec fn thriving(f: FrameView, task: TaskView, args: Seq<Seq<char>>) -> bool {
    &&& f.task == task
    &&& f.args == args
    &&& f.refs.len() == 0
    &&& f.error is None
    &&& failed(f.batch).len() == 0
    &&& f.stage == Stage::Fresh || f.stage == Stage::RunShell || f.stage == Stage::SerialAt
        || f.stage == Stage::SerialShell || f.stage == Stage::SpawnAt || f.stage
        == Stage::Spawning || f.stage == Stage::CallAt || f.stage == Stage::WaitAt || f.stage
        == Stage::Waiting || f.stage == Stage::Finished
}

/// Whether the extra arguments can be put behind the single command of `task`.
pub open spec fn quotable(task: TaskView, args: Seq<Seq<char>>) -> bool {
    task.run is Some ==> command_line(wrapped(task.tool_env, task.run->0), args) is Ok
}

proof fn lemma_thriving_step(
    config: PlzConfigView,
    base: Seq<char>,
    interactive: bool,
    task: TaskView,
    args: Seq<Seq<char>>,
    f: FrameView,
    event: EventView,
)
    requires
        calls_nothing(task, args),
        quotable(task, args),
        thriving(f, task, args),
        pleasing(f, event),
    ensures
        thriving(frame_step(config, base, interactive, f, event).frame, task, args),
        !(frame_step(config, base, interactive, f, event).effect is Call),
{
    assert(failed(Seq::<OutcomeView>::empty()).len() == 0);
    assert(refs_of(f.task.tool_env, Seq::<Seq<char>>::empty()).len() == 0);
    match f.stage {
        Stage::Fresh => lemma_at_fresh(config, base, interactive, f, event),
        Stage::RunShell => lemma_at_run_shell(config, base, interactive, f, event),
        Stage::SerialAt => lemma_at_serial_at(config, base, interactive, f, event),
        Stage::SerialShell => lemma_at_serial_shell(config, base, interactive, f, event),
        Stage::SpawnAt => lemma_at_spawn_at(config, base, interactive, f, event),
        Stage::Spawning => lemma_at_spawning(config, base, interactive, f, event),
        Stage::CallAt => lemma_at_call_at(config, base, interactive, f, event),
        Stage::WaitAt => lemma_at_wait_at(config, base, interactive, f, event),
        Stage::Waiting => {
            lemma_at_waiting(config, base, interactive, f, event);
            lemma_failure_is_kept(f.batch, f.command, None);
        },
        _ => lemma_at_finished(config, base, interactive, f, event),
    }
}

/// Whether `run` has ended in success or is at a single frame that is on
/// its way to success.
pub open spec fn succeeding(run: RunView, task: TaskView, args: Seq<Seq<char>>) -> bool {
    (run.stack.len() == 0 && run.failure is None) || (run.stack.len() == 1 && thriving(
        run.stack[0],
        task,
        args,
    ))
}

/// Whether every event of the stream `events` pleases the frame that is
/// at work when it arrives, in the run that begins with `run`.
pub open spec fn all_pleasing(
    config: PlzConfigView,
    run: RunView,
    events: spec_fn(nat) -> EventView,
) -> bool {
    forall|k: nat| #[trigger]
        run_on(config, run, events, 0, k).stack.len() > 0 ==> pleasing(
            run_on(config, run, events, 0, k).stack.last(),
            events(k),
        )
}

proof fn lemma_keeps_succeeding(
    config: PlzConfigView,
    task: TaskView,
    args: Seq<Seq<char>>,
    run: RunView,
    events: spec_fn(nat) -> EventView,
    k: nat,
)
    requires
        calls_nothing(task, args),
        quotable(task, args),
        succeeding(run, task, args),
        all_pleasing(config, run, events),
    ensures
        succeeding(run_on(config, run, events, 0, k), task, args),
    decreases k,
{
    if k > 0 {
        let j = (k - 1) as nat;
        lemma_keeps_succeeding(config, task, args, run, events, j);
        let before = run_on(config, run, events, 0, j);
        lemma_run_on_sum(config, run, events, 0, j, 1);
        assert(run_on(config, before, events, j, 1) == advance(config, before, events(j)).run) by {
            assert(run_on(config, advance(config, before, events(j)).run, events, j + 1, 0)
                == advance(config, before, events(j)).run);
        }
        if before.stack.len() == 1 {
            let f = before.stack[0];
            assert(before.stack.last() == f);
            assert(before.stack.drop_last() =~= Seq::<FrameView>::empty());
            lemma_thriving_step(config, before.base, before.interactive, task, args, f, events(j));
            if f.stage == Stage::Finished {
                lemma_at_finished(config, before.base, before.interactive, f, events(j));
            } else {
                lemma_step_decreases(config, before.base, before.interactive, f, events(j));
                let t = frame_step(config, before.base, before.interactive, f, events(j));
                assert(advance(config, before, events(j)).run.stack =~= seq![t.frame]);
            }
        }
    }
}

/// A task without references whose commands all go well ends in
/// success: where every command that is run or waited for ends with the
/// exit code zero and every command that is to be started is started,
/// the run ends, and its result is success.
pub proof fn lemma_run_of_successes_succeeds(
    config: PlzConfigView,
    task: TaskView,
    base: Seq<char>,
    interactive: bool,
    args: Seq<Seq<char>>,
    events: spec_fn(nat) -> EventView,
) -> (n: nat)
    requires
        calls_nothing(task, args),
        quotable(task, args),
        all_pleasing(config, start(task, base, interactive, args), events),
    ensures
        run_on(config, start(task, base, interactive, args), events, 0, n).stack.len() == 0,
        run_on(config, start(task, base, interactive, args), events, 0, n).failure is None,
{
    let run = start(task, base, interactive, args);
    let first = fresh(task, true, args);
    assert(run.stack[0] == first);
    assert(failed(Seq::<OutcomeView>::empty()).len() == 0);
    lemma_weight_bounds(first);
    let n = (weight(first) + 1) as nat;
    lemma_run_without_references_ends(config, task, base, interactive, args, events, n);
    lemma_keeps_succeeding(config, task, args, run, events, n);
    n
}

/// A run of a task without references ends, whatever its host answers:
/// it is over once it was answered more often than the weight of its
/// first frame tells.
pub proof fn lemma_run_without_references_ends(
    config: PlzConfigView,
    task: TaskView,
    base: Seq<char>,
    interactive: bool,
    args: Seq<Seq<char>>,
    events: spec_fn(nat) -> EventView,
    n: nat,
)
    requires
        calls_nothing(task, args),
        n > weight(fresh(task, true, args)),
    ensures
        run_on(config, start(task, base, interactive, args), events, 0, n).stack.len() == 0,
{
    let run = start(task, base, interactive, args);
    let first = fresh(task, true, args);
    assert(run.stack[0] == first);
    lemma_run_on_nears(config, run, events, 0, n, task, args, weight(first));
    let last = run_on(config, run, events, 0, n);
    if last.stack.len() == 1 {
        lemma_weight_bounds(last.stack[0]);
    }
}

proof fn lemma_run_on_nears(
    config: PlzConfigView,
    run: RunView,
    events: spec_fn(nat) -> EventView,
    k: nat,
    n: nat,
    task: TaskView,
    args: Seq<Seq<char>>,
    bound: int,
)
    requires
        calls_nothing(task, args),
        nearing(run, task, args, bound),
    ensures
        nearing(run_on(config, run, events, k, n), task, args, bound - n),
    decreases n,
{
    if n > 0 {
        lemma_advance_nears(config, run, events(k), task, args, bound);
        lemma_run_on_nears(
            config,
            advance(config, run, events(k)).run,
            events,
            k + 1,
            (n - 1) as nat,
            task,
            args,
            bound - 1,
        );
    }
}

} // verus!
