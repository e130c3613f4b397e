//! Git hooks: the scripts that call back into the task runner, and which
//! tasks each hook stage runs.

use crate::config::{PlzConfig, PlzConfigView, Task, TaskGroupView, TaskView};
use crate::engine::shell::{join_in, path_joined};
use crate::names::NameMap;
use crate::order::{
    ascending, insert_ascending, keep_marked, lemma_ordered, marked, ordered, sorted_keys,
};
use crate::text::{
    concat3, contains, decimal, has_infix, has_text, join, joined, lines, number, opt_text,
    parse_u32, push_decimal, rows, same_text, slice, split_lines, texts, to_chars, trim_chars,
    trimmed, without_prefix,
};
use vstd::prelude::*;

verus! {

/// The line that marks a hook script as written by the task runner.
pub const MANAGED_MARKER: &'static str = "# plz:managed - do not edit";

/// The version of the hook scripts that are written now.
pub const HOOKS_VERSION: u32 = 2;

/// The script of the hook for `stage`. It gives way where hooks are
/// switched off or the task runner is not installed, and otherwise runs
/// the tasks of the stage without asking anything.
pub open spec fn hook_script(stage: Seq<char>) -> Seq<char> {
    "#!/bin/sh\n"@ + MANAGED_MARKER@ + "\n# plz:hooks_version="@ + decimal(HOOKS_VERSION as int)
        + "\n[ \"${PLZ_SKIP_HOOKS}\" = \"1\" ] && exit 0\ncommand -v plz >/dev/null 2>&1 || { echo \"plz not found in PATH, skipping "@
        + stage + " hook\" >&2; exit 0; }\nplz --no-interactive hooks run "@ + stage + "\n"@
}

/// Writes the script of the hook for `stage`.
pub fn generate_hook_script(stage: &str) -> (r: String)
    ensures
        r@ == hook_script(stage@),
{
    let mut r = "#!/bin/sh\n".to_owned();
    r.append(MANAGED_MARKER);
    r.append("\n# plz:hooks_version=");
    push_decimal(&mut r, HOOKS_VERSION as i64);
    r.append(
        "\n[ \"${PLZ_SKIP_HOOKS}\" = \"1\" ] && exit 0\ncommand -v plz >/dev/null 2>&1 || { echo \"plz not found in PATH, skipping ",
    );
    r.append(stage);
    r.append(" hook\" >&2; exit 0; }\nplz --no-interactive hooks run ");
    r.append(stage);
    r.append("\n");
    r
}

/// The names of the tasks of `tasks` that are attached to the stage `stage`.
pub open spec fn attached(tasks: Map<Seq<char>, TaskView>, stage: Seq<char>) -> Set<Seq<char>> {
    Set::new(|k: Seq<char>| tasks.dom().contains(k) && tasks[k].git_hook == Some(stage))
}

/// Each name of `names` behind `group` and a colon.
pub open spec fn prefixed(group: Seq<char>, names: Seq<Seq<char>>) -> Seq<Seq<char>> {
    Seq::new(names.len(), |i: int| group + seq![':'] + names[i])
}

/// The tasks of the groups `order` that are attached to `stage`, group by
/// group, within a group in ascending order, each as `group:task`.
pub open spec fn group_names(
    groups: Map<Seq<char>, TaskGroupView>,
    order: Seq<Seq<char>>,
    stage: Seq<char>,
) -> Seq<Seq<char>>
    decreases order.len(),
{
    if order.len() == 0 {
        Seq::empty()
    } else {
        group_names(groups, order.drop_last(), stage) + prefixed(
            order.last(),
            ordered(attached(groups[order.last()].tasks, stage)),
        )
    }
}

/// The tasks that the stage `stage` runs, in the order in which it runs
/// them: the top-level tasks in ascending order, then the tasks of the
/// groups, the groups in ascending order.
pub open spec fn stage_names(config: PlzConfigView, stage: Seq<char>) -> Seq<Seq<char>> {
    ordered(attached(config.tasks, stage)) + match config.taskgroup {
        Some(groups) => group_names(groups, ordered(groups.dom()), stage),
        None => Seq::empty(),
    }
}

/// Whether some task of the configuration is attached to `stage`.
pub open spec fn uses_stage(config: PlzConfigView, stage: Seq<char>) -> bool {
    ||| exists|k: Seq<char>| #[trigger]
        config.tasks.dom().contains(k) && config.tasks[k].git_hook == Some(stage)
    ||| config.taskgroup is Some && exists|g: Seq<char>, k: Seq<char>|
        config.taskgroup->0.dom().contains(g) && #[trigger] config.taskgroup->0[g].tasks.dom().contains(
            k,
        ) && config.taskgroup->0[g].tasks[k].git_hook == Some(stage)
}

/// The names of the tasks of `tasks` that are attached to `stage`, in
/// ascending order.
pub fn names_attached(tasks: &NameMap<Task>, stage: &str) -> (r: Vec<String>)
    ensures
        texts(r@) == ordered(attached(tasks@, stage@)),
        ascending(texts(r@)),
        texts(r@).to_set() == attached(tasks@, stage@),
{
    let keys = sorted_keys(tasks);
    let mut marks: Vec<bool> = Vec::new();
    let mut i: usize = 0;
    while i < keys.len()
        invariant
            i <= keys.len(),
            marks@.len() == i,
            texts(keys@).to_set() == tasks@.dom(),
            forall|j: int|
                0 <= j < i ==> marks@[j] == (tasks@[#[trigger] texts(keys@)[j]].git_hook == Some(
                    stage@,
                )),
        decreases keys.len() - i,
    {
        assert(texts(keys@).to_set().contains(texts(keys@)[i as int]));
        let is_attached = match tasks.get(keys[i].as_str()) {
            Some(t) => match &t.git_hook {
                Some(h) => same_text(h.as_str(), stage),
                None => false,
            },
            None => false,
        };
        marks.push(is_attached);
        i += 1;
    }
    let r = keep_marked(&keys, &marks);
    proof {
        let ks = texts(keys@);
        let goal = attached(tasks@, stage@);
        assert forall|x: Seq<char>| marked(ks, marks@).contains(x) <==> goal.contains(x) by {
            if marked(ks, marks@).contains(x) {
                let j = choose|j: int|
                    0 <= j < ks.len() && j < marks@.len() && ks[j] == x && marks@[j];
                assert(ks.to_set().contains(ks[j]));
            }
            if goal.contains(x) {
                assert(ks.to_set().contains(x));
                let j = choose|j: int| 0 <= j < ks.len() && ks[j] == x;
                assert(marks@[j]);
            }
        }
        assert(marked(ks, marks@) =~= goal);
    }
    r
}

/// The tasks that the stage `stage` runs, in the order in which it runs them.
pub fn tasks_for_stage(config: &PlzConfig, stage: &str) -> (r: Vec<String>)
    ensures
        texts(r@) == stage_names(config@, stage@),
{
    let mut r = names_attached(&config.tasks, stage);
    match &config.taskgroup {
        Some(groups) => {
            let order = sorted_keys(groups);
            let ghost top = texts(r@);
            let mut g: usize = 0;
            assert(texts(order@).take(0) =~= Seq::<Seq<char>>::empty());
            assert(top + Seq::<Seq<char>>::empty() =~= top);
            while g < order.len()
                invariant
                    g <= order.len(),
                    texts(order@).to_set() == groups@.dom(),
                    texts(r@) == top + group_names(groups@, texts(order@).take(g as int), stage@),
                decreases order.len() - g,
            {
                let ghost name = texts(order@)[g as int];
                proof {
                    assert(texts(order@).to_set().contains(name));
                    let now = texts(order@).take(g + 1);
                    assert(now.drop_last() =~= texts(order@).take(g as int));
                    assert(now.last() == name);
                }
                match groups.get(order[g].as_str()) {
                    Some(group) => {
                        let members = names_attached(&group.tasks, stage);
                        let ghost before = texts(r@);
                        let mut k: usize = 0;
                        assert(prefixed(name, texts(members@)).take(0) =~= Seq::<
                            Seq<char>,
                        >::empty());
                        assert(before + Seq::<Seq<char>>::empty() =~= before);
                        while k < members.len()
                            invariant
                                k <= members.len(),
                                g < order.len(),
                                name == order@[g as int]@,
                                texts(r@) == before + prefixed(name, texts(members@)).take(
                                    k as int,
                                ),
                            decreases members.len() - k,
                        {
                            proof {
                                reveal_strlit(":");
                                assert(":"@ =~= seq![':']);
                            }
                            let display = concat3(order[g].as_str(), ":", members[k].as_str());
                            let ghost so_far = texts(r@);
                            r.push(display);
                            proof {
                                assert(texts(r@) =~= so_far.push(display@));
                                assert(prefixed(name, texts(members@)).take(k + 1) =~= prefixed(
                                    name,
                                    texts(members@),
                                ).take(k as int).push(display@));
                                assert(before + prefixed(name, texts(members@)).take(
                                    k as int,
                                ).push(display@) =~= so_far.push(display@));
                            }
                            k += 1;
                        }
                        proof {
                            let all = prefixed(name, texts(members@));
                            assert(all.take(all.len() as int) =~= all);
                            assert(top + (group_names(
                                groups@,
                                texts(order@).take(g as int),
                                stage@,
                            ) + all) =~= before + all);
                        }
                    },
                    None => {},
                }
                g += 1;
            }
            assert(texts(order@).take(order@.len() as int) =~= texts(order@));
        },
        None => {
            assert(texts(r@) + Seq::<Seq<char>>::empty() =~= texts(r@));
        },
    }
    r
}

/// The stages that the tasks of `tasks` are attached to.
pub open spec fn stages_in(tasks: Map<Seq<char>, TaskView>) -> Set<Seq<char>> {
    Set::new(
        |h: Seq<char>|
            exists|k: Seq<char>| #[trigger] tasks.dom().contains(k) && tasks[k].git_hook == Some(h),
    )
}

/// The stages that some task of the configuration is attached to.
pub open spec fn stages_of(config: PlzConfigView) -> Set<Seq<char>> {
    Set::new(|h: Seq<char>| uses_stage(config, h))
}

fn collect_stages(tasks: &NameMap<Task>, list: &mut Vec<String>)
    requires
        ascending(texts(old(list)@)),
    ensures
        ascending(texts(final(list)@)),
        texts(final(list)@).to_set() == texts(old(list)@).to_set().union(stages_in(tasks@)),
{
    let n = tasks.len();
    let mut i: usize = 0;
    let ghost start = texts(list@).to_set();
    while i < n
        invariant
            i <= n,
            n == tasks.keys().len(),
            ascending(texts(list@)),
            forall|h: Seq<char>| #[trigger]
                texts(list@).to_set().contains(h) <==> start.contains(h) || exists|j: int|
                    0 <= j < i && #[trigger] tasks@[tasks.keys()[j]].git_hook == Some(h),
        decreases n - i,
    {
        let task = tasks.value_at(i);
        let ghost before = texts(list@).to_set();
        let ghost fresh = match &task.git_hook {
            Some(h) => Some(h@),
            None => None,
        };
        match &task.git_hook {
            Some(h) => {
                if !has_text(list, h.as_str()) {
                    insert_ascending(list, h.clone());
                } else {
                    assert(before.contains(h@));
                }
            },
            None => {},
        }
        proof {
            assert(tasks@[tasks.keys()[i as int]].git_hook == fresh);
            assert forall|h: Seq<char>| #[trigger]
                texts(list@).to_set().contains(h) <==> start.contains(h) || exists|j: int|
                    0 <= j < i + 1 && #[trigger] tasks@[tasks.keys()[j]].git_hook == Some(h) by {
                if texts(list@).to_set().contains(h) {
                    if before.contains(h) {
                        if !start.contains(h) {
                            let j = choose|j: int|
                                0 <= j < i && #[trigger] tasks@[tasks.keys()[j]].git_hook == Some(
                                    h,
                                );
                            assert(0 <= j < i + 1);
                        }
                    } else {
                        assert(fresh == Some(h));
                    }
                }
                if exists|j: int|
                    0 <= j < i + 1 && #[trigger] tasks@[tasks.keys()[j]].git_hook == Some(h) {
                    let j = choose|j: int|
                        0 <= j < i + 1 && #[trigger] tasks@[tasks.keys()[j]].git_hook == Some(h);
                    if j < i {
                        assert(before.contains(h));
                    } else {
                        assert(fresh == Some(h));
                    }
                }
            }
        }
        i += 1;
    }
    proof {
        assert forall|h: Seq<char>| texts(list@).to_set().contains(h) <==> start.union(
            stages_in(tasks@),
        ).contains(h) by {
            if texts(list@).to_set().contains(h) && !start.contains(h) {
                let j = choose|j: int|
                    0 <= j < n && #[trigger] tasks@[tasks.keys()[j]].git_hook == Some(h);
                crate::names::lemma_index_of(tasks.keys(), j);
                assert(tasks@.dom().contains(tasks.keys()[j]));
            }
            if stages_in(tasks@).contains(h) {
                let k = choose|k: Seq<char>| #[trigger]
                    tasks@.dom().contains(k) && tasks@[k].git_hook == Some(h);
                let j = tasks.keys().index_of(k);
                assert(0 <= j < n && tasks.keys()[j] == k);
                assert(tasks@[tasks.keys()[j]].git_hook == Some(h));
            }
        }
        assert(texts(list@).to_set() =~= start.union(stages_in(tasks@)));
    }
}

/// The stages that some task of the configuration is attached to, in
/// ascending order.
pub fn stages_used(config: &PlzConfig) -> (r: Vec<String>)
    ensures
        texts(r@) == ordered(stages_of(config@)),
        ascending(texts(r@)),
        texts(r@).to_set() == stages_of(config@),
{
    let mut list: Vec<String> = Vec::new();
    assert(texts(list@) =~= Seq::<Seq<char>>::empty());
    assert(texts(list@).to_set() =~= Set::<Seq<char>>::empty());
    collect_stages(&config.tasks, &mut list);
    match &config.taskgroup {
        Some(groups) => {
            let n = groups.len();
            let mut g: usize = 0;
            while g < n
                invariant
                    g <= n,
                    n == groups.keys().len(),
                    ascending(texts(list@)),
                    forall|h: Seq<char>| #[trigger]
                        texts(list@).to_set().contains(h) <==> stages_in(config@.tasks).contains(h)
                            || exists|j: int|
                            0 <= j < g && #[trigger] stages_in(
                                groups@[groups.keys()[j]].tasks,
                            ).contains(h),
                decreases n - g,
            {
                let group = groups.value_at(g);
                let ghost before = texts(list@).to_set();
                collect_stages(&group.tasks, &mut list);
                proof {
                    assert forall|h: Seq<char>| #[trigger]
                        texts(list@).to_set().contains(h) <==> stages_in(config@.tasks).contains(h)
                            || exists|j: int|
                            0 <= j < g + 1 && #[trigger] stages_in(
                                groups@[groups.keys()[j]].tasks,
                            ).contains(h) by {
                        assert(group.tasks@ == groups@[groups.keys()[g as int]].tasks);
                        assert(texts(list@).to_set().contains(h) <==> before.contains(h)
                            || stages_in(group.tasks@).contains(h));
                        if before.contains(h) && !stages_in(config@.tasks).contains(h) {
                            let j = choose|j: int|
                                0 <= j < g && #[trigger] stages_in(
                                    groups@[groups.keys()[j]].tasks,
                                ).contains(h);
                            assert(0 <= j < g + 1);
                        }
                        if stages_in(group.tasks@).contains(h) {
                            assert(stages_in(groups@[groups.keys()[g as int]].tasks).contains(h));
                        }
                        if exists|j: int|
                            0 <= j < g + 1 && #[trigger] stages_in(
                                groups@[groups.keys()[j]].tasks,
                            ).contains(h) {
                            let j = choose|j: int|
                                0 <= j < g + 1 && #[trigger] stages_in(
                                    groups@[groups.keys()[j]].tasks,
                                ).contains(h);
                            if j < g {
                                assert(before.contains(h));
                            } else {
                                assert(stages_in(group.tasks@).contains(h));
                            }
                        }
                    }
                }
                g += 1;
            }
            proof {
                assert forall|h: Seq<char>| texts(list@).to_set().contains(h) <==> stages_of(
                    config@,
                ).contains(h) by {
                    if texts(list@).to_set().contains(h) && !stages_in(config@.tasks).contains(h) {
                        let j = choose|j: int|
                            0 <= j < n && #[trigger] stages_in(
                                groups@[groups.keys()[j]].tasks,
                            ).contains(h);
                        let gname = groups.keys()[j];
                        crate::names::lemma_index_of(groups.keys(), j);
                        let k = choose|k: Seq<char>| #[trigger]
                            groups@[gname].tasks.dom().contains(k) && groups@[gname].tasks[k].git_hook
                                == Some(h);
                        assert(config@.taskgroup->0.dom().contains(gname)
                            && config@.taskgroup->0[gname].tasks.dom().contains(k));
                    }
                    if stages_in(config@.tasks).contains(h) {
                        let k = choose|k: Seq<char>| #[trigger]
                            config@.tasks.dom().contains(k) && config@.tasks[k].git_hook == Some(h);
                        assert(uses_stage(config@, h));
                    }
                    if uses_stage(config@, h) && !stages_in(config@.tasks).contains(h) {
                        let (gname, k) = choose|gname: Seq<char>, k: Seq<char>|
                            config@.taskgroup->0.dom().contains(gname)
                                && #[trigger] config@.taskgroup->0[gname].tasks.dom().contains(k)
                                && config@.taskgroup->0[gname].tasks[k].git_hook == Some(h);
                        let j = groups.keys().index_of(gname);
                        assert(0 <= j < n && groups.keys()[j] == gname);
                        assert(stages_in(groups@[groups.keys()[j]].tasks).contains(h));
                    }
                }
                assert(texts(list@).to_set() =~= stages_of(config@));
            }
        },
        None => {
            proof {
                assert forall|h: Seq<char>| texts(list@).to_set().contains(h) <==> stages_of(
                    config@,
                ).contains(h) by {
                    if stages_in(config@.tasks).contains(h) {
                        let k = choose|k: Seq<char>| #[trigger]
                            config@.tasks.dom().contains(k) && config@.tasks[k].git_hook == Some(h);
                        assert(uses_stage(config@, h));
                    }
                }
                assert(texts(list@).to_set() =~= stages_of(config@));
            }
        },
    }
    proof {
        lemma_ordered(texts(list@));
    }
    list
}

/// A git hook stage with the tasks that it runs.
#[derive(Debug)]
pub struct StageTasks {
    pub stage: String,
    pub tasks: Vec<String>,
}

/// The stages of a list of stages with their tasks.
pub open spec fn stage_list(v: Seq<StageTasks>) -> Seq<Seq<char>> {
    Seq::new(v.len(), |i: int| v[i].stage@)
}

/// Groups the tasks by the git hook stage that they are attached to. The
/// stages come in ascending order, and each with the tasks that it runs,
/// in the order in which it runs them; a task of a group is written
/// `group:task`.
pub fn tasks_by_stage(config: &PlzConfig) -> (r: Vec<StageTasks>)
    ensures
        stage_list(r@) == ordered(stages_of(config@)),
        ascending(stage_list(r@)),
        stage_list(r@).to_set() == stages_of(config@),
        forall|i: int|
            0 <= i < r@.len() ==> texts((#[trigger] r@[i]).tasks@) == stage_names(
                config@,
                r@[i].stage@,
            ),
{
    let stages = stages_used(config);
    let mut r: Vec<StageTasks> = Vec::new();
    let mut i: usize = 0;
    while i < stages.len()
        invariant
            i <= stages.len(),
            r@.len() == i,
            forall|j: int| 0 <= j < i ==> (#[trigger] r@[j]).stage@ == stages@[j]@,
            forall|j: int|
                0 <= j < i ==> texts((#[trigger] r@[j]).tasks@) == stage_names(
                    config@,
                    r@[j].stage@,
                ),
        decreases stages.len() - i,
    {
        let tasks = tasks_for_stage(config, stages[i].as_str());
        r.push(StageTasks { stage: stages[i].clone(), tasks });
        i += 1;
    }
    assert(stage_list(r@) =~= texts(stages@));
    r
}

/// What the first line that begins with `# plz:hooks_version=` gives as
/// the version: the number behind it, white space aside, if it is one.
/// None where no line begins so.
pub open spec fn version_line(ls: Seq<Seq<char>>) -> Option<Option<u32>>
    decreases ls.len(),
{
    if ls.len() == 0 {
        None
    } else {
        match without_prefix(ls[0], "# plz:hooks_version="@) {
            Some(v) => Some(number(trimmed(v))),
            None => version_line(ls.drop_first()),
        }
    }
}

/// The version of the hook script `content`: what its version line says;
/// 1 for a script of the task runner without a version line; none for any
/// other script.
pub open spec fn script_version(content: Seq<char>) -> Option<u32> {
    match version_line(lines(content)) {
        Some(v) => v,
        None => if has_infix(content, MANAGED_MARKER@) {
            Some(1)
        } else {
            None
        },
    }
}

/// Reads the version of the hook script `existing`; a script that is not
/// there has none.
pub fn installed_hook_version(existing: Option<&str>) -> (r: Option<u32>)
    ensures
        r == match existing {
            Some(c) => script_version(c@),
            None => None,
        },
{
    match existing {
        Some(c) => version_of_script(c),
        None => None,
    }
}

/// Reads the version of the hook script `content`.
pub fn version_of_script(content: &str) -> (r: Option<u32>)
    ensures
        r == script_version(content@),
{
    let v = to_chars(content);
    let ls = split_lines(&v);
    let prefix = to_chars("# plz:hooks_version=");
    let mut i: usize = 0;
    assert(rows(ls@).skip(0) =~= rows(ls@));
    while i < ls.len()
        invariant
            i <= ls.len(),
            prefix@ == "# plz:hooks_version="@,
            rows(ls@) == lines(content@),
            version_line(rows(ls@)) == version_line(rows(ls@).skip(i as int)),
        decreases ls.len() - i,
    {
        let ghost here = rows(ls@).skip(i as int);
        proof {
            assert(here[0] == ls@[i as int]@);
            assert(here.drop_first() =~= rows(ls@).skip(i + 1));
        }
        let line = &ls[i];
        if prefix.len() <= line.len() && crate::text::matches_at(line, &prefix, 0) {
            let rest = slice(line, prefix.len(), line.len());
            proof {
                assert(line@.subrange(0, prefix@.len() as int) == prefix@);
                assert(rest@ =~= line@.skip(prefix@.len() as int));
            }
            return parse_u32(&trim_chars(&rest));
        }
        proof {
            if crate::text::has_prefix(line@, prefix@) {
                assert(crate::text::occurs_at(line@, prefix@, 0));
            }
        }
        i += 1;
    }
    assert(rows(ls@).skip(ls@.len() as int) =~= Seq::<Seq<char>>::empty());
    if contains(content, MANAGED_MARKER) {
        Some(1)
    } else {
        None
    }
}

/// Whether the hook script `existing` was written by the task runner; a
/// script that is not there was not.
pub fn is_plz_managed(existing: Option<&str>) -> (r: bool)
    ensures
        r == match existing {
            Some(c) => has_infix(c@, MANAGED_MARKER@),
            None => false,
        },
{
    match existing {
        Some(c) => contains(c, MANAGED_MARKER),
        None => false,
    }
}

/// What stands where the hook of a stage belongs.
#[derive(Clone, Copy, Debug, PartialEq, Eq, Structural)]
pub enum HookState {
    /// No script.
    Absent,
    /// A script that the task runner did not write.
    Foreign,
    /// A script of the task runner in an older version.
    Outdated,
    /// A script of the task runner in the version that is written now.
    Current,
}

/// The state of the hook whose script is `existing`.
pub open spec fn state_of(existing: Option<Seq<char>>) -> HookState {
    match existing {
        None => HookState::Absent,
        Some(c) => if !has_infix(c, MANAGED_MARKER@) {
            HookState::Foreign
        } else if (match script_version(c) {
            Some(v) => v,
            None => 0,
        }) < HOOKS_VERSION {
            HookState::Outdated
        } else {
            HookState::Current
        },
    }
}

/// Tells the state of the hook whose script is `existing`.
pub fn hook_state(existing: Option<&str>) -> (r: HookState)
    ensures
        r == state_of(
            match existing {
                Some(c) => Some(c@),
                None => None,
            },
        ),
{
    match existing {
        None => HookState::Absent,
        Some(c) => {
            if !is_plz_managed(existing) {
                HookState::Foreign
            } else {
                let version = match installed_hook_version(existing) {
                    Some(v) => v,
                    None => 0,
                };
                if version < HOOKS_VERSION {
                    HookState::Outdated
                } else {
                    HookState::Current
                }
            }
        },
    }
}

/// Whether the hook whose script is `existing` is still to be written:
/// it is, unless the script is one of the task runner in the version
/// that is written now.
pub fn hook_needs_install(existing: Option<&str>) -> (r: bool)
    ensures
        r == (state_of(
            match existing {
                Some(c) => Some(c@),
                None => None,
            },
        ) != HookState::Current),
{
    hook_state(existing) != HookState::Current
}

/// Whether a hook is still to be written: `installed` holds, for each
/// stage that the configuration uses, the script that stands in its
/// place. Outside a repository nothing is to be written.
pub fn has_uninstalled_hooks(in_repository: bool, installed: &Vec<Option<String>>) -> (r: bool)
    ensures
        r == (in_repository && exists|i: int|
            0 <= i < installed@.len() && state_of(opt_text(#[trigger] installed@[i]))
                != HookState::Current),
{
    if !in_repository {
        return false;
    }
    let mut i: usize = 0;
    while i < installed.len()
        invariant
            i <= installed.len(),
            in_repository,
            forall|j: int|
                0 <= j < i ==> state_of(opt_text(#[trigger] installed@[j])) == HookState::Current,
        decreases installed.len() - i,
    {
        let existing = match &installed[i] {
            Some(c) => Some(c.as_str()),
            None => None,
        };
        if hook_needs_install(existing) {
            assert(state_of(opt_text(installed@[i as int])) != HookState::Current);
            return true;
        }
        i += 1;
    }
    false
}

/// Why hooks cannot be found.
#[derive(Debug)]
pub enum HooksError {
    /// Neither the directory nor any directory above it holds a repository.
    NotARepository,
}

impl HooksError {
    /// The error in words.
    pub fn message(&self) -> (r: String)
        ensures
            r@ == "Not a git repository (no .git directory found)"@,
    {
        "Not a git repository (no .git directory found)".to_owned()
    }
}

/// The position of the first directory that holds a repository.
pub open spec fn first_repository(found: Seq<bool>) -> Option<int>
    decreases found.len(),
{
    if found.len() == 0 {
        None
    } else if found[0] {
        Some(0)
    } else {
        match first_repository(found.drop_first()) {
            Some(i) => Some(i + 1),
            None => None,
        }
    }
}

/// Which of the directories hold a repository.
pub open spec fn repositories(v: Seq<(String, bool)>) -> Seq<bool> {
    Seq::new(v.len(), |i: int| v[i].1)
}

/// The place in `ancestors` of the first directory that holds a
/// repository. `ancestors` lists a directory and the directories above it,
/// nearest first, and says of each whether it holds a directory `.git`.
pub fn repository_at(ancestors: &Vec<(String, bool)>) -> (r: Option<usize>)
    ensures
        match r {
            Some(i) => i < ancestors@.len() && first_repository(repositories(ancestors@)) == Some(
                i as int,
            ),
            None => first_repository(repositories(ancestors@)) is None,
        },
{
    let ghost found = repositories(ancestors@);
    let mut i: usize = 0;
    assert(found.skip(0) =~= found);
    while i < ancestors.len()
        invariant
            i <= ancestors.len(),
            found == repositories(ancestors@),
            first_repository(found) == match first_repository(found.skip(i as int)) {
                Some(k) => Some(k + i),
                None => None,
            },
        decreases ancestors.len() - i,
    {
        let ghost here = found.skip(i as int);
        assert(here[0] == ancestors@[i as int].1);
        assert(here.drop_first() =~= found.skip(i + 1));
        if ancestors[i].1 {
            return Some(i);
        }
        i += 1;
    }
    assert(found.skip(found.len() as int) =~= Seq::<bool>::empty());
    None
}

/// The directory of the git hooks: `.git/hooks` in the first of
/// `ancestors` that holds a repository. `ancestors` lists a directory and
/// the directories above it, nearest first, and says of each whether it
/// holds a directory `.git`.
pub fn find_git_hooks_dir(ancestors: &Vec<(String, bool)>) -> (r: Result<String, HooksError>)
    ensures
        match r {
            Ok(dir) => {
                &&& first_repository(repositories(ancestors@)) matches Some(i)
                &&& 0 <= i < ancestors@.len()
                &&& dir@ == path_joined(path_joined(ancestors@[i].0@, ".git"@), "hooks"@)
            },
            Err(_) => first_repository(repositories(ancestors@)) is None,
        },
{
    match repository_at(ancestors) {
        Some(i) => {
            let git = join_in(ancestors[i].0.as_str(), ".git");
            Ok(join_in(git.as_str(), "hooks"))
        },
        None => Err(HooksError::NotARepository),
    }
}

/// The line that tells the state of the hook of `stage`: a mark, the
/// stage, the tasks that it runs, and a note where the hook is outdated.
pub open spec fn status_text(stage: Seq<char>, names: Seq<Seq<char>>, state: HookState) -> Seq<
    char,
> {
    let mark = match state {
        HookState::Current => "\x1b[32m✓\x1b[0m"@,
        HookState::Outdated => "\x1b[33m↑\x1b[0m"@,
        _ => "\x1b[2m·\x1b[0m"@,
    };
    let note = match state {
        HookState::Outdated => " \x1b[33m(outdated)\x1b[0m"@,
        _ => Seq::empty(),
    };
    mark + " "@ + stage + ": "@ + joined(names, ", "@) + note
}

/// Writes the line that tells the state of the hook of `stage`.
pub fn status_line(stage: &str, names: &Vec<String>, state: HookState) -> (r: String)
    ensures
        r@ == status_text(stage@, texts(names@), state),
{
    let mut r = match state {
        HookState::Current => "\x1b[32m✓\x1b[0m".to_owned(),
        HookState::Outdated => "\x1b[33m↑\x1b[0m".to_owned(),
        _ => "\x1b[2m·\x1b[0m".to_owned(),
    };
    r.append(" ");
    r.append(stage);
    r.append(": ");
    r.append(join(names, ", ").as_str());
    match state {
        HookState::Outdated => {
            r.append(" \x1b[33m(outdated)\x1b[0m");
        },
        _ => {
            assert(r@ + Seq::<char>::empty() =~= r@);
        },
    }
    r
}

/// What is done about the hook of a stage when hooks are installed or removed.
#[derive(Clone, Copy, Debug, PartialEq, Eq, Structural)]
pub enum HookAction {
    /// Nothing, and nothing is said.
    Nothing,
    /// Nothing, and the user is told why.
    Skip,
    /// The script is written.
    Write,
    /// The script is removed.
    Remove,
}

/// What installing does about a hook in the state `state`: it leaves a
/// script alone that the task runner did not write, and writes its own
/// script in every other case.
pub fn install_action(state: HookState) -> (r: HookAction)
    ensures
        r == (if state == HookState::Foreign {
            HookAction::Skip
        } else {
            HookAction::Write
        }),
{
    match state {
        HookState::Foreign => HookAction::Skip,
        _ => HookAction::Write,
    }
}

/// What removing does about a hook in the state `state`: it removes a
/// script of the task runner and leaves every other alone.
pub fn uninstall_action(state: HookState) -> (r: HookAction)
    ensures
        r == (match state {
            HookState::Absent => HookAction::Nothing,
            HookState::Foreign => HookAction::Skip,
            _ => HookAction::Remove,
        }),
{
    match state {
        HookState::Absent => HookAction::Nothing,
        HookState::Foreign => HookAction::Skip,
        _ => HookAction::Remove,
    }
}

/// What the user is told about hooks.
#[derive(Debug)]
pub enum HookNotice {
    /// No task is attached to a git hook stage.
    NoneConfigured,
    /// Installing leaves the hook of a stage alone.
    InstallSkipped(String),
    /// The hook of a stage was written; it runs these tasks.
    Installed(String, Vec<String>),
    /// Removing leaves the hook of a stage alone.
    RemoveSkipped(String),
    /// The hook of a stage was removed.
    Removed(String),
    /// The tasks of a stage are about to run.
    Running(String, Vec<String>),
    /// The tasks of a stage have all succeeded.
    Passed(String),
    /// Hooks are still to be installed.
    InstallHint,
    /// The task runner's own directory is still to be set up.
    SetupHint,
}

pub enum HookNoticeView {
    NoneConfigured,
    InstallSkipped(Seq<char>),
    Installed(Seq<char>, Seq<Seq<char>>),
    RemoveSkipped(Seq<char>),
    Removed(Seq<char>),
    Running(Seq<char>, Seq<Seq<char>>),
    Passed(Seq<char>),
    InstallHint,
    SetupHint,
}

impl View for HookNotice {
    type V = HookNoticeView;

    open spec fn view(&self) -> HookNoticeView {
        match *self {
            HookNotice::NoneConfigured => HookNoticeView::NoneConfigured,
            HookNotice::InstallSkipped(s) => HookNoticeView::InstallSkipped(s@),
            HookNotice::Installed(s, n) => HookNoticeView::Installed(s@, texts(n@)),
            HookNotice::RemoveSkipped(s) => HookNoticeView::RemoveSkipped(s@),
            HookNotice::Removed(s) => HookNoticeView::Removed(s@),
            HookNotice::Running(s, n) => HookNoticeView::Running(s@, texts(n@)),
            HookNotice::Passed(s) => HookNoticeView::Passed(s@),
            HookNotice::InstallHint => HookNoticeView::InstallHint,
            HookNotice::SetupHint => HookNoticeView::SetupHint,
        }
    }
}

impl HookNoticeView {
    /// The notice in words, as it is written to the terminal.
    pub open spec fn text(self) -> Seq<char> {
        match self {
            HookNoticeView::NoneConfigured => "No tasks have git_hook configured in plz.toml"@,
            HookNoticeView::InstallSkipped(s) => "\x1b[33mWarning:\x1b[0m Skipping "@ + s
                + " — existing hook is not plz-managed"@,
            HookNoticeView::Installed(s, n) => "\x1b[32m✓\x1b[0m Installed "@ + s
                + " hook (tasks: "@ + joined(n, ", "@) + ")"@,
            HookNoticeView::RemoveSkipped(s) => "\x1b[33mWarning:\x1b[0m Skipping "@ + s
                + " — not plz-managed"@,
            HookNoticeView::Removed(s) => "\x1b[32m✓\x1b[0m Removed "@ + s + " hook"@,
            HookNoticeView::Running(s, n) => "\x1b[36m🙏 Running "@ + s + " hook ("@ + joined(
                n,
                ", "@,
            ) + ")\x1b[0m"@,
            HookNoticeView::Passed(s) => "\x1b[32m✓ "@ + s + " hook passed\x1b[0m"@,
            HookNoticeView::InstallHint => "\x1b[2mYour plz.toml has git hooks that need to be installed or updated. Run `plz hooks` to install them.\x1b[0m"@,
            HookNoticeView::SetupHint => "\x1b[2mRun `plz plz` to set up custom settings and templates.\x1b[0m"@,
        }
    }
}

impl HookNotice {
    /// The notice in words, as it is written to the terminal.
    pub fn text(&self) -> (r: String)
        ensures
            r@ == self@.text(),
    {
        match self {
            HookNotice::NoneConfigured => "No tasks have git_hook configured in plz.toml".to_owned(),
            HookNotice::InstallSkipped(s) => concat3(
                "\x1b[33mWarning:\x1b[0m Skipping ",
                s.as_str(),
                " — existing hook is not plz-managed",
            ),
            HookNotice::Installed(s, n) => {
                let mut r = concat3("\x1b[32m✓\x1b[0m Installed ", s.as_str(), " hook (tasks: ");
                r.append(join(n, ", ").as_str());
                r.append(")");
                r
            },
            HookNotice::RemoveSkipped(s) => concat3(
                "\x1b[33mWarning:\x1b[0m Skipping ",
                s.as_str(),
                " — not plz-managed",
            ),
            HookNotice::Removed(s) => concat3("\x1b[32m✓\x1b[0m Removed ", s.as_str(), " hook"),
            HookNotice::Running(s, n) => {
                let mut r = concat3("\x1b[36m🙏 Running ", s.as_str(), " hook (");
                r.append(join(n, ", ").as_str());
                r.append(")\x1b[0m");
                r
            },
            HookNotice::Passed(s) => concat3("\x1b[32m✓ ", s.as_str(), " hook passed\x1b[0m"),
            HookNotice::InstallHint => "\x1b[2mYour plz.toml has git hooks that need to be installed or updated. Run `plz hooks` to install them.\x1b[0m".to_owned(),
            HookNotice::SetupHint => "\x1b[2mRun `plz plz` to set up custom settings and templates.\x1b[0m".to_owned(),
        }
    }
}

/// Which hint about hooks is shown after a run, if any: none inside
/// another run of the task runner; the hint to set up the task runner's
/// own directory where that is missing; else, where hints are wanted and
/// a hook is still to be installed, the hint to install.
pub fn hint_for(nested: bool, set_up: bool, show_hints: bool, uninstalled: bool) -> (r: Option<
    HookNotice,
>)
    ensures
        match r {
            Some(n) => !nested && ((!set_up && n@ == HookNoticeView::SetupHint) || (set_up
                && show_hints && uninstalled && n@ == HookNoticeView::InstallHint)),
            None => nested || (set_up && !(show_hints && uninstalled)),
        },
{
    if nested {
        None
    } else if !set_up {
        Some(HookNotice::SetupHint)
    } else if show_hints && uninstalled {
        Some(HookNotice::InstallHint)
    } else {
        None
    }
}

} // verus!
