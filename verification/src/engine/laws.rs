//! What holds of every run.

use crate::config::{FailHookView, PlzConfigView, TaskView};
use crate::engine::model::{
    advance, after, begin_parallel, begin_serial, deliver, Effect, end_block, EventView, failed,
    failing, FailureView, frame_step, FrameView, fresh, lemma_at_call_at, lemma_at_failing,
    lemma_at_finished, lemma_at_fresh, lemma_at_hook_ask, lemma_at_hook_fix, lemma_at_hook_shell,
    lemma_at_replay_ask, lemma_at_replay_at, lemma_at_replay_continue, lemma_at_replay_fix,
    lemma_at_replay_next, lemma_at_replay_shell, lemma_at_run_shell, lemma_at_serial_at,
    lemma_at_serial_shell, lemma_at_spawn_at, lemma_at_spawning, lemma_at_wait_at,
    lemma_at_waiting, NoticeView, OutcomeView, QuestionView, quiet, replaying, RequestView,
    ran, result_of, RunView, shell_failure, Stage, start, summary, Turn, winding_down,
};
use crate::engine::shell::{command_line, work_dir};
use crate::runner::{parse_ref, RunErrorView, TaskRefView, wrapped};
use vstd::prelude::*;

verus! {

/// A task that has only a single, plain command runs that command,
/// wrapped for its tool environment, in its directory under the base
/// directory, and in the base directory itself where it names none. When
/// the command ends with exit code zero, the run ends in success.
pub proof fn lemma_single_command_succeeds(
    config: PlzConfigView,
    task: TaskView,
    base: Seq<char>,
    interactive: bool,
    event: EventView,
)
    requires
        task.run is Some,
        task.run_serial is None,
        task.run_parallel is None,
        parse_ref(wrapped(task.tool_env, task.run->0)) is None,
    ensures
        ({
            let command = wrapped(task.tool_env, task.run->0);
            let first = advance(config, start(task, base, interactive, Seq::empty()), event);
            let second = advance(config, first.run, EventView::Exited { code: Some(0) });
            let last = advance(config, after(config, second.run, 4), EventView::Resume);
            &&& first.request == (RequestView::Shell { command, dir: work_dir(base, task.dir) })
            &&& task.dir is None ==> first.request == (RequestView::Shell { command, dir: base })
            &&& second.request == RequestView::Proceed
            &&& last.request == RequestView::Done(Ok(()))
            &&& last.run.stack.len() == 0
        }),
{
    let command = wrapped(task.tool_env, task.run->0);
    let resume = EventView::Resume;
    let r0 = start(task, base, interactive, Seq::empty());
    let f0 = fresh(task, true, Seq::empty());
    assert(r0.stack.last() == f0);
    lemma_at_fresh(config, base, interactive, f0, event);
    let first = advance(config, r0, event);
    let f1 = FrameView { stage: Stage::RunShell, command, ..f0 };
    assert(first.run.stack =~= seq![f1]);
    assert(first.run.stack.last() == f1);
    lemma_at_run_shell(config, base, interactive, f1, EventView::Exited { code: Some(0) });
    let second = advance(config, first.run, EventView::Exited { code: Some(0) });
    let f2 = begin_serial(f1);
    assert(second.run.stack =~= seq![f2]);
    assert(second.run.stack.last() == f2);
    assert(after(config, second.run, 0) == second.run);
    lemma_at_serial_at(config, base, interactive, f2, resume);
    assert(failed(Seq::<OutcomeView>::empty()).len() == 0);
    let r3 = after(config, second.run, 1);
    let f3 = begin_parallel(f2);
    assert(r3.stack =~= seq![f3]);
    assert(r3.stack.last() == f3);
    lemma_at_spawn_at(config, base, interactive, f3, resume);
    let r4 = after(config, second.run, 2);
    let f4 = FrameView { stage: Stage::CallAt, at: 0, ..f3 };
    assert(r4.stack =~= seq![f4]);
    assert(r4.stack.last() == f4);
    lemma_at_call_at(config, base, interactive, f4, resume);
    let r5 = after(config, second.run, 3);
    let f5 = FrameView { stage: Stage::WaitAt, at: 0, ..f4 };
    assert(r5.stack =~= seq![f5]);
    assert(r5.stack.last() == f5);
    lemma_at_wait_at(config, base, interactive, f5, resume);
    let r6 = after(config, second.run, 4);
    let f6 = FrameView { stage: Stage::Finished, error: None, ..f5 };
    assert(r6.stack =~= seq![f6]);
    assert(r6.stack.last() == f6);
    lemma_at_finished(config, base, interactive, f6, resume);
    assert(r6.stack.drop_last() =~= Seq::<FrameView>::empty());
}

/// Plain commands fail fast: when the single command or a plain command
/// of the serial list fails, the task's own phases are over at once, with
/// that failure, and whatever the block had recorded so far.
pub proof fn lemma_plain_failure_ends_phases(
    config: PlzConfigView,
    base: Seq<char>,
    interactive: bool,
    f: FrameView,
    event: EventView,
)
    requires
        f.stage == Stage::RunShell || f.stage == Stage::SerialShell,
        shell_failure(event, f.command) is Some,
    ensures
        frame_step(config, base, interactive, f, event) == quiet(
            failing(f, shell_failure(event, f.command)->0),
        ),
{
    if f.stage == Stage::RunShell {
        lemma_at_run_shell(config, base, interactive, f, event);
    } else {
        lemma_at_serial_shell(config, base, interactive, f, event);
    }
}

/// Once the own phases of a task are over, none of its commands runs any
/// more and no task is entered: every step leaves the task winding down,
/// and the only command that may be handed to the shell is that of the
/// task's fail hook.
pub proof fn lemma_winding_down_stays(
    config: PlzConfigView,
    base: Seq<char>,
    interactive: bool,
    f: FrameView,
    event: EventView,
)
    requires
        winding_down(f.stage),
    ensures
        ({
            let t = frame_step(config, base, interactive, f, event);
            &&& winding_down(t.frame.stage)
            &&& t.frame.task == f.task
            &&& !(t.effect is Call)
            &&& t.effect matches Effect::Ask(RequestView::Shell { command, dir }) ==> {
                &&& command == t.frame.command
                &&& f.stage == Stage::Failing ==> f.hooks && f.task.fail_hook
                    == Some(FailHookView::Command(f.task.fail_hook->0->Command_0)) && command
                    == wrapped(f.task.tool_env, f.task.fail_hook->0->Command_0)
                &&& f.stage != Stage::Failing ==> f.stage == Stage::HookAsk && command
                    == f.command
            }
            &&& !(t.effect matches Effect::Ask(RequestView::Spawn { .. }))
            &&& !(t.effect matches Effect::Ask(RequestView::Wait { .. }))
        }),
{
    match f.stage {
        Stage::Failing => lemma_at_failing(config, base, interactive, f, event),
        Stage::HookShell => lemma_at_hook_shell(config, base, interactive, f, event),
        Stage::HookAsk => lemma_at_hook_ask(config, base, interactive, f, event),
        Stage::HookFix => lemma_at_hook_fix(config, base, interactive, f, event),
        _ => lemma_at_finished(config, base, interactive, f, event),
    }
}

/// A block in which something has failed is replayed: its failures are
/// taken up one by one, in the order in which they were recorded. Before
/// that the summary of what was recorded is told, exactly when more than
/// one command of the block has run.
pub proof fn lemma_block_failure_is_replayed(f: FrameView, serial: bool)
    requires
        failed(f.batch).len() > 0,
    ensures
        end_block(f, serial).frame.stage == Stage::ReplayAt,
        end_block(f, serial).frame.at == 0,
        end_block(f, serial).frame.failures == failed(f.batch),
        end_block(f, serial).effect == Effect::Ask(RequestView::Proceed),
        end_block(f, serial).notices == (if ran(f, serial) > 1 {
            seq![NoticeView::Summary(summary(f.batch))]
        } else {
            Seq::empty()
        }),
{
}

/// At the end of a serial list in which a task has failed, the summary
/// is told exactly when more than one item of the list was taken up:
/// plain commands count among them, though the summary names only the
/// tasks that references point to.
pub proof fn lemma_serial_summary(
    config: PlzConfigView,
    base: Seq<char>,
    interactive: bool,
    f: FrameView,
    event: EventView,
)
    requires
        f.stage == Stage::SerialAt,
        !(f.task.run_serial is Some && 0 <= f.at < f.task.run_serial->0.len()),
        failed(f.batch).len() > 0,
    ensures
        ({
            let t = frame_step(config, base, interactive, f, event);
            &&& t.frame.stage == Stage::ReplayAt
            &&& t.frame.failures == failed(f.batch)
            &&& f.at > 1 ==> t.notices == seq![NoticeView::Summary(summary(f.batch))]
            &&& f.at <= 1 ==> t.notices == Seq::<NoticeView>::empty()
        }),
{
    lemma_at_serial_at(config, base, interactive, f, event);
}

/// The replay of a block never ends in success. Each of its steps either
/// stays in the replay or ends the task's own phases with the failure of
/// the block as a whole: `Aborted` where the user chose not to go on,
/// `AggregatedFailure` after the last failure, however many of the
/// failures their fail hooks have resolved.
pub proof fn lemma_replay_never_succeeds(
    config: PlzConfigView,
    base: Seq<char>,
    interactive: bool,
    f: FrameView,
    event: EventView,
)
    requires
        replaying(f.stage),
    ensures
        ({
            let t = frame_step(config, base, interactive, f, event);
            &&& t.effect is Ask
            &&& replaying(t.frame.stage) || (t.frame.stage == Stage::Failing && (t.frame.error
                == Some(RunErrorView::AggregatedFailure) || t.frame.error == Some(
                RunErrorView::Aborted,
            )))
            &&& t.frame.failures == f.failures
            &&& t.frame.stage == Stage::Failing && t.frame.error == Some(
                RunErrorView::AggregatedFailure,
            ) ==> f.stage == Stage::ReplayAt && !(0 <= f.at < f.failures.len())
        }),
{
    match f.stage {
        Stage::ReplayAt => lemma_at_replay_at(config, base, interactive, f, event),
        Stage::ReplayShell => lemma_at_replay_shell(config, base, interactive, f, event),
        Stage::ReplayAsk => lemma_at_replay_ask(config, base, interactive, f, event),
        Stage::ReplayFix => lemma_at_replay_fix(config, base, interactive, f, event),
        Stage::ReplayNext => lemma_at_replay_next(config, base, interactive, f, event),
        _ => lemma_at_replay_continue(config, base, interactive, f, event),
    }
}

/// In a replay, what a fail hook suggests resolves the failure when it is
/// run and succeeds: the next failure is taken up without a question. A
/// failure that is left unresolved is followed by the question whether to
/// go on exactly when there is a user to ask and a failure still to come.
pub proof fn lemma_replay_resolution(
    config: PlzConfigView,
    base: Seq<char>,
    interactive: bool,
    f: FrameView,
    event: EventView,
)
    ensures
        f.stage == Stage::ReplayFix && shell_failure(event, f.command) is None ==> frame_step(
            config,
            base,
            interactive,
            f,
            event,
        ) == quiet(FrameView { stage: Stage::ReplayAt, ..f }),
        f.stage == Stage::ReplayFix && shell_failure(event, f.command) is Some ==> frame_step(
            config,
            base,
            interactive,
            f,
            event,
        ) == (Turn {
            frame: FrameView { stage: Stage::ReplayNext, ..f },
            notices: seq![NoticeView::FixFailed],
            effect: Effect::Ask(RequestView::Proceed),
        }),
        f.stage == Stage::ReplayNext ==> frame_step(config, base, interactive, f, event).effect
            == Effect::Ask(
            if interactive && f.at < f.failures.len() {
                RequestView::Confirm(QuestionView::ContinueNext)
            } else {
                RequestView::Proceed
            },
        ),
        f.stage == Stage::ReplayContinue && event != EventView::Answer(true) ==> frame_step(
            config,
            base,
            interactive,
            f,
            event,
        ) == quiet(failing(f, RunErrorView::Aborted)),
{
    if f.stage == Stage::ReplayFix {
        lemma_at_replay_fix(config, base, interactive, f, event);
    } else if f.stage == Stage::ReplayNext {
        lemma_at_replay_next(config, base, interactive, f, event);
    } else if f.stage == Stage::ReplayContinue {
        lemma_at_replay_continue(config, base, interactive, f, event);
    }
}

/// A suggestion resolves the task's own failure when there is a user to
/// ask, the user agrees, and the suggested command succeeds: the task
/// then ends in success. Where the user declines, or the command fails,
/// the task ends with the failure it had.
pub proof fn lemma_suggestion_resolves(
    config: PlzConfigView,
    base: Seq<char>,
    f: FrameView,
    suggest_command: Seq<char>,
    any: EventView,
    exit: EventView,
)
    requires
        f.stage == Stage::Failing,
        f.hooks,
        f.error is Some,
        f.task.fail_hook == Some(FailHookView::Suggest { suggest_command }),
    ensures
        ({
            let command = wrapped(f.task.tool_env, suggest_command);
            let dir = work_dir(base, f.task.dir);
            let asked = frame_step(config, base, true, f, any);
            let agreed = frame_step(config, base, true, asked.frame, EventView::Answer(true));
            let declined = frame_step(config, base, true, asked.frame, EventView::Answer(false));
            let fixed = frame_step(config, base, true, agreed.frame, exit);
            &&& asked.effect == Effect::Ask(RequestView::Confirm(QuestionView::RunFix(command)))
            &&& asked.notices == seq![NoticeView::TaskFailed { name: None, error: f.error->0 }]
            &&& agreed.effect == Effect::Ask(RequestView::Shell { command, dir })
            &&& declined.frame.stage == Stage::Finished
            &&& declined.frame.error == f.error
            &&& fixed.frame.stage == Stage::Finished
            &&& shell_failure(exit, command) is None ==> fixed.frame.error is None
            &&& shell_failure(exit, command) is Some ==> fixed.frame.error == f.error
                && fixed.notices == seq![NoticeView::FixFailed]
        }),
{
    lemma_at_failing(config, base, true, f, any);
    let asked = frame_step(config, base, true, f, any);
    lemma_at_hook_ask(config, base, true, asked.frame, EventView::Answer(true));
    lemma_at_hook_ask(config, base, true, asked.frame, EventView::Answer(false));
    let agreed = frame_step(config, base, true, asked.frame, EventView::Answer(true));
    lemma_at_hook_fix(config, base, true, agreed.frame, exit);
}

/// Where nobody can be asked, a suggestion is only told, and a fail hook
/// that is a command or a message never resolves the failure: the task
/// ends with the failure it had, whatever comes of the hook's command.
/// The same holds of a task without a fail hook, and of a task whose fail
/// hook is not to be honoured.
pub proof fn lemma_failure_surfaces(
    config: PlzConfigView,
    base: Seq<char>,
    interactive: bool,
    f: FrameView,
    any: EventView,
    exit: EventView,
)
    requires
        f.stage == Stage::Failing,
        f.error is Some,
        !(interactive && f.hooks && f.task.fail_hook is Some && f.task.fail_hook->0 is Suggest),
    ensures
        ({
            let first = frame_step(config, base, interactive, f, any);
            let second = frame_step(config, base, interactive, first.frame, exit);
            &&& first.frame.error == f.error
            &&& first.frame.stage == Stage::Finished || (first.frame.stage == Stage::HookShell
                && second.frame.stage == Stage::Finished && second.frame.error == f.error)
            &&& first.frame.stage == Stage::HookShell <==> f.hooks && f.task.fail_hook is Some
                && f.task.fail_hook->0 is Command
        }),
{
    lemma_at_failing(config, base, interactive, f, any);
    let first = frame_step(config, base, interactive, f, any);
    if first.frame.stage == Stage::HookShell {
        lemma_at_hook_shell(config, base, interactive, first.frame, exit);
    }
}

/// A task that is over hands its failure, if it has one, to the task that
/// had entered it, and to the host when it is the task that the run began
/// with: the run then ends with that result.
pub proof fn lemma_finished_task_returns(config: PlzConfigView, run: RunView, event: EventView)
    requires
        run.stack.len() > 0,
        run.stack.last().stage == Stage::Finished,
    ensures
        ({
            let p = advance(config, run, event);
            let error = run.stack.last().error;
            &&& run.stack.len() == 1 ==> p.request == RequestView::Done(result_of(error))
                && p.run.stack.len() == 0 && p.run.failure == error
            &&& run.stack.len() > 1 ==> p.request == RequestView::Proceed && p.run.stack
                == run.stack.drop_last().drop_last().push(
                deliver(run.stack[run.stack.len() - 2], error),
            )
        }),
{
    lemma_at_finished(config, run.base, run.interactive, run.stack.last(), event);
}

/// References are fail-deferred: the failure of a task that a list points
/// to is recorded and the list goes on, while the failure of the task
/// that the single command points to ends the task's own phases.
pub proof fn lemma_deliver(parent: FrameView, error: Option<RunErrorView>)
    ensures
        parent.stage == Stage::SerialCall ==> deliver(parent, error).stage == Stage::SerialAt
            && deliver(parent, error).at == parent.at && deliver(parent, error).batch
            == parent.batch.push(OutcomeView { name: parent.name, error }),
        parent.stage == Stage::Calling ==> deliver(parent, error).stage == Stage::CallAt
            && deliver(parent, error).at == parent.at && deliver(parent, error).batch
            == parent.batch.push(OutcomeView { name: parent.name, error }),
        parent.stage == Stage::RunCall && error is Some ==> deliver(parent, error) == failing(
            parent,
            error->0,
        ),
        parent.stage == Stage::RunCall && error is None ==> deliver(parent, error)
            == begin_serial(parent),
{
}

/// A single command that spells a reference enters the task that the
/// reference points to, with that task's own fail hook honoured and
/// without extra arguments; the task then runs its own commands.
pub proof fn lemma_reference_enters_target(
    config: PlzConfigView,
    run: RunView,
    event: EventView,
    target: TaskRefView,
)
    requires
        run.stack.len() > 0,
        run.stack.last().stage == Stage::Fresh,
        run.stack.last().task.run is Some,
        command_line(
            wrapped(run.stack.last().task.tool_env, run.stack.last().task.run->0),
            run.stack.last().args,
        ) is Ok,
        parse_ref(
            command_line(
                wrapped(run.stack.last().task.tool_env, run.stack.last().task.run->0),
                run.stack.last().args,
            )->Ok_0,
        ) == Some(target),
    ensures
        ({
            let p = advance(config, run, event);
            &&& target.target(config) is Some ==> {
                &&& p.request == RequestView::Proceed
                &&& p.run.stack.len() == run.stack.len() + 1
                &&& p.run.stack.last() == fresh(target.target(config)->0, true, Seq::empty())
                &&& p.run.stack[run.stack.len() - 1].stage == Stage::RunCall
            }
            &&& target.target(config) is None ==> {
                &&& p.request == RequestView::Proceed
                &&& p.run.stack.len() == run.stack.len()
                &&& p.run.stack.last() == failing(run.stack.last(), target.missing())
            }
        }),
{
    lemma_at_fresh(config, run.base, run.interactive, run.stack.last(), event);
}

/// In the parallel list every plain command is started before a
/// reference is run, and every reference is run before a command is
/// waited for: while a command is still to be started no task is entered
/// and nothing is waited for, and while a reference is still to be run
/// nothing is started and nothing is waited for.
pub proof fn lemma_parallel_order(
    config: PlzConfigView,
    base: Seq<char>,
    interactive: bool,
    f: FrameView,
    event: EventView,
)
    requires
        f.stage == Stage::SpawnAt || f.stage == Stage::Spawning || f.stage == Stage::CallAt,
    ensures
        ({
            let t = frame_step(config, base, interactive, f, event);
            &&& !(t.effect matches Effect::Ask(RequestView::Wait { .. }))
            &&& !(t.effect matches Effect::Ask(RequestView::Shell { .. }))
            &&& f.stage != Stage::CallAt ==> !(t.effect is Call)
            &&& f.stage != Stage::SpawnAt ==> !(t.effect matches Effect::Ask(
                RequestView::Spawn { .. },
            ))
            &&& f.stage == Stage::SpawnAt && 0 <= f.at < f.shells.len() ==> t.effect
                == Effect::Ask(
                RequestView::Spawn { command: f.shells[f.at], dir: work_dir(base, f.task.dir) },
            ) && t.frame.stage == Stage::Spawning && t.frame.at == f.at + 1
            &&& f.stage == Stage::SpawnAt && !(0 <= f.at < f.shells.len()) ==> t.frame.stage
                == Stage::CallAt && t.frame.at == 0
            &&& f.stage == Stage::CallAt && !(0 <= f.at < f.refs.len()) ==> t.frame.stage
                == Stage::WaitAt && t.frame.at == 0
            &&& t.frame.shells == f.shells
            &&& t.frame.refs == f.refs
        }),
{
    if f.stage == Stage::SpawnAt {
        lemma_at_spawn_at(config, base, interactive, f, event);
    } else if f.stage == Stage::Spawning {
        lemma_at_spawning(config, base, interactive, f, event);
    } else {
        lemma_at_call_at(config, base, interactive, f, event);
    }
}

/// What is recorded as a failure stays among the failures of its block.
pub proof fn lemma_failure_is_kept(
    batch: Seq<OutcomeView>,
    name: Seq<char>,
    error: Option<RunErrorView>,
)
    ensures
        failed(batch.push(OutcomeView { name, error })) == (match error {
            Some(e) => failed(batch).push(FailureView { name, error: e }),
            None => failed(batch),
        }),
        failed(batch.push(OutcomeView { name, error })).len() >= failed(batch).len(),
{
    let longer = batch.push(OutcomeView { name, error });
    assert(longer.drop_last() =~= batch);
    assert(longer.last() == (OutcomeView { name, error }));
}

/// A command of the parallel list that ends with a failure fails the
/// block, whatever the other commands and tasks of the list do: the
/// failure is recorded, and the list goes on to its end.
pub proof fn lemma_failed_command_fails_block(
    config: PlzConfigView,
    base: Seq<char>,
    interactive: bool,
    f: FrameView,
    code: Option<i32>,
)
    requires
        f.stage == Stage::Waiting,
        code != Some(0i32),
    ensures
        ({
            let t = frame_step(config, base, interactive, f, EventView::Exited { code });
            &&& t.frame.stage == Stage::WaitAt
            &&& t.frame.at == f.at
            &&& failed(t.frame.batch).len() > 0
            &&& t.effect == Effect::Ask(RequestView::Proceed)
        }),
{
    let event = EventView::Exited { code };
    lemma_at_waiting(config, base, interactive, f, event);
    lemma_failure_is_kept(f.batch, f.command, shell_failure(event, f.command));
}

} // verus!
