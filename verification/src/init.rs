//! Making and extending configuration files from templates.

use crate::cli::{push_spaces, spaces};
use crate::names::NameMap;
use crate::templates::{
    Environment, EnvironmentView, Snippet, strip_template_section, stripped, TemplateMeta,
    TemplateMetaView, templates,
};
use crate::text::{
    chars_are, concat3, from_chars, has_prefix, has_text, joined, lines, push_chars, replace,
    replaced, rows, same_text, split_lines, texts, to_chars, trim_chars, trim_start,
    trim_start_chars, trimmed,
};
use crate::utils::MultiSelectItem;
use vstd::prelude::*;

verus! {

/// The names of a list of tasks with their descriptions.
pub open spec fn task_names(v: Seq<(String, Option<String>)>) -> Seq<Seq<char>> {
    Seq::new(v.len(), |i: int| v[i].0@)
}

/// `toml` in which the task `name` is called `name-suffix`: in the
/// heading of its table, and where a command points to it or calls it.
pub open spec fn suffixed_one(toml: Seq<char>, name: Seq<char>, suffix: Seq<char>) -> Seq<char> {
    let renamed = name + "-"@ + suffix;
    replaced(
        replaced(
            replaced(toml, "[tasks."@ + name + "]"@, "[tasks."@ + renamed + "]"@),
            "\"plz:"@ + name + "\""@,
            "\"plz:"@ + renamed + "\""@,
        ),
        "\"plz "@ + name + "\""@,
        "\"plz "@ + renamed + "\""@,
    )
}

/// `toml` after the first `n` of `names` were given the suffix, one
/// after the other.
pub open spec fn suffixed(toml: Seq<char>, suffix: Seq<char>, names: Seq<Seq<char>>, n: int) -> Seq<
    char,
>
    decreases n,
{
    if n <= 0 {
        toml
    } else {
        suffixed_one(suffixed(toml, suffix, names, n - 1), names[n - 1], suffix)
    }
}

/// Gives every task of `task_names` the suffix `suffix` throughout `toml`.
pub fn add_suffix_to_toml(toml: &str, suffix: &str, task_names: &Vec<(String, Option<String>)>) -> (r:
    String)
    ensures
        r@ == suffixed(toml@, suffix@, self::task_names(task_names@), task_names@.len() as int),
{
    let mut result = toml.to_owned();
    let mut i: usize = 0;
    while i < task_names.len()
        invariant
            i <= task_names.len(),
            result@ == suffixed(toml@, suffix@, self::task_names(task_names@), i as int),
        decreases task_names.len() - i,
    {
        let name = task_names[i].0.as_str();
        let renamed = concat3(name, "-", suffix);
        result = replace(
            result.as_str(),
            concat3("[tasks.", name, "]").as_str(),
            concat3("[tasks.", renamed.as_str(), "]").as_str(),
        );
        result = replace(
            result.as_str(),
            concat3("\"plz:", name, "\"").as_str(),
            concat3("\"plz:", renamed.as_str(), "\"").as_str(),
        );
        result = replace(
            result.as_str(),
            concat3("\"plz ", name, "\"").as_str(),
            concat3("\"plz ", renamed.as_str(), "\"").as_str(),
        );
        i += 1;
    }
    result
}

/// `content` after the tables of the first `n` of `names` were moved
/// into the group `group`.
pub open spec fn regrouped(content: Seq<char>, group: Seq<char>, names: Seq<Seq<char>>, n: int) -> Seq<
    char,
>
    decreases n,
{
    if n <= 0 {
        content
    } else {
        replaced(
            regrouped(content, group, names, n - 1),
            "[tasks."@ + names[n - 1] + "]"@,
            "[taskgroup."@ + group + "."@ + names[n - 1] + "]"@,
        )
    }
}

/// `content` after the commands that point to the first `n` of `names`
/// or call them were led into the group `group`.
pub open spec fn redirected(content: Seq<char>, group: Seq<char>, names: Seq<Seq<char>>, n: int) -> Seq<
    char,
>
    decreases n,
{
    if n <= 0 {
        content
    } else {
        replaced(
            replaced(
                redirected(content, group, names, n - 1),
                "\"plz:"@ + names[n - 1] + "\""@,
                "\"plz:"@ + group + ":"@ + names[n - 1] + "\""@,
            ),
            "\"plz "@ + names[n - 1] + "\""@,
            "\"plz "@ + group + " "@ + names[n - 1] + "\""@,
        )
    }
}

/// Whether some line of `ls` is `line`, white space round it aside.
pub open spec fn has_line(ls: Seq<Seq<char>>, line: Seq<char>) -> bool {
    exists|i: int| 0 <= i < ls.len() && trimmed(#[trigger] ls[i]) == line
}

/// The lines of `ls` but those that are `line`, white space aside.
pub open spec fn without_line(ls: Seq<Seq<char>>, line: Seq<char>) -> Seq<Seq<char>>
    decreases ls.len(),
{
    if ls.len() == 0 {
        Seq::empty()
    } else if trimmed(ls.last()) == line {
        without_line(ls.drop_last(), line)
    } else {
        without_line(ls.drop_last(), line).push(ls.last())
    }
}

/// The line that sets the tool environment `env`.
pub open spec fn env_line(env: Seq<char>) -> Seq<char> {
    "env = \""@ + env + "\""@
}

/// `content` with the tool environment `env` as the default of the group
/// `group`: where a line of `content` sets it, every such line is taken
/// out, the white space at the beginning goes, and the section of the
/// group's defaults is put in front. Other content stays as it is.
pub open spec fn with_shared_env(content: Seq<char>, group: Seq<char>, env: Seq<char>) -> Seq<
    char,
> {
    if has_line(lines(content), env_line(env)) {
        "[taskgroup."@ + group + ".extends]\n"@ + env_line(env) + "\n\n"@ + trim_start(
            joined(without_line(lines(content), env_line(env)), "\n"@),
        )
    } else {
        content
    }
}

/// The content of a template as the group `group`: the tables of the
/// tasks become tables of the group, the commands that point to the
/// tasks or call them are led into the group, and the tool environment
/// `env` that tasks share becomes the default of the group.
pub open spec fn as_taskgroup(
    content: Seq<char>,
    group: Seq<char>,
    names: Seq<Seq<char>>,
    env: Seq<char>,
) -> Seq<char> {
    with_shared_env(
        redirected(
            regrouped(content, group, names, names.len() as int),
            group,
            names,
            names.len() as int,
        ),
        group,
        env,
    )
}

fn share_env(content: String, group_name: &str, template_env: &str) -> (r: String)
    ensures
        r@ == with_shared_env(content@, group_name@, template_env@),
{
    let line = concat3("env = \"", template_env, "\"");
    let v = to_chars(content.as_str());
    let ls = split_lines(&v);
    let mut found = false;
    let mut rest: Vec<String> = Vec::new();
    let mut i: usize = 0;
    assert(rows(ls@).take(0) =~= Seq::<Seq<char>>::empty());
    assert(texts(rest@) =~= Seq::<Seq<char>>::empty());
    while i < ls.len()
        invariant
            i <= ls.len(),
            line@ == env_line(template_env@),
            found == has_line(rows(ls@).take(i as int), line@),
            texts(rest@) == without_line(rows(ls@).take(i as int), line@),
        decreases ls.len() - i,
    {
        let ghost so_far = rows(ls@).take(i as int);
        let ghost now = rows(ls@).take(i + 1);
        proof {
            assert(now.drop_last() =~= so_far);
            assert(now.last() == ls@[i as int]@);
        }
        let t = trim_chars(&ls[i]);
        if chars_are(&t, line.as_str()) {
            proof {
                assert(trimmed(now[i as int]) == line@);
            }
            found = true;
        } else {
            let kept = from_chars(&ls[i]);
            let ghost before = texts(rest@);
            rest.push(kept);
            proof {
                assert(texts(rest@) =~= before.push(kept@));
                if has_line(now, line@) {
                    let k = choose|k: int| 0 <= k < now.len() && trimmed(#[trigger] now[k]) == line@;
                    assert(so_far[k] == now[k]);
                }
                if has_line(so_far, line@) {
                    let k = choose|k: int|
                        0 <= k < so_far.len() && trimmed(#[trigger] so_far[k]) == line@;
                    assert(now[k] == so_far[k]);
                }
            }
        }
        i += 1;
    }
    assert(rows(ls@).take(ls@.len() as int) =~= rows(ls@));
    if found {
        let body = crate::text::join(&rest, "\n");
        let trimmed_body = trim_start_chars(&to_chars(body.as_str()));
        let mut r = concat3("[taskgroup.", group_name, ".extends]\n");
        r.append(line.as_str());
        r.append("\n\n");
        push_chars(&mut r, &trimmed_body);
        r
    } else {
        content
    }
}

/// Turns the content of a template into the group `group_name`.
pub fn convert_to_taskgroup(
    content: &str,
    group_name: &str,
    task_names: &Vec<(String, Option<String>)>,
    template_env: &str,
) -> (r: String)
    ensures
        r@ == as_taskgroup(content@, group_name@, self::task_names(task_names@), template_env@),
{
    let mut result = content.to_owned();
    let mut i: usize = 0;
    while i < task_names.len()
        invariant
            i <= task_names.len(),
            result@ == regrouped(content@, group_name@, self::task_names(task_names@), i as int),
        decreases task_names.len() - i,
    {
        let name = task_names[i].0.as_str();
        let mut heading = concat3("[taskgroup.", group_name, ".");
        heading.append(name);
        heading.append("]");
        result = replace(result.as_str(), concat3("[tasks.", name, "]").as_str(), heading.as_str());
        i += 1;
    }
    let ghost moved = result@;
    let mut i: usize = 0;
    while i < task_names.len()
        invariant
            i <= task_names.len(),
            result@ == redirected(moved, group_name@, self::task_names(task_names@), i as int),
        decreases task_names.len() - i,
    {
        let name = task_names[i].0.as_str();
        let mut pointer = concat3("\"plz:", group_name, ":");
        pointer.append(name);
        pointer.append("\"");
        result = replace(
            result.as_str(),
            concat3("\"plz:", name, "\"").as_str(),
            pointer.as_str(),
        );
        let mut call = concat3("\"plz ", group_name, " ");
        call.append(name);
        call.append("\"");
        result = replace(result.as_str(), concat3("\"plz ", name, "\"").as_str(), call.as_str());
        i += 1;
    }
    share_env(result, group_name, template_env)
}

/// A line of a template for the task `task`: the heading of a task's
/// table becomes the heading of the table of `task`.
pub open spec fn renamed_line(line: Seq<char>, task: Seq<char>) -> Seq<char> {
    if has_prefix(line, "[tasks."@) {
        "[tasks."@ + task + "]"@
    } else {
        line
    }
}

/// The first `n` of the lines `ls` of a template for the task `task`,
/// with a line feed before each line but those at the very beginning.
pub open spec fn rewritten(ls: Seq<Seq<char>>, task: Seq<char>, n: int) -> Seq<char>
    decreases n,
{
    if n <= 0 {
        Seq::empty()
    } else {
        let before = rewritten(ls, task, n - 1);
        (if before.len() > 0 {
            before + "\n"@
        } else {
            before
        }) + renamed_line(ls[n - 1], task)
    }
}

/// Gives the task of a ready-made task's content the name `task_name`.
pub fn rewrite_template(content: &str, task_name: &str) -> (r: String)
    ensures
        r@ == rewritten(lines(content@), task_name@, lines(content@).len() as int),
{
    let v = to_chars(content);
    let ls = split_lines(&v);
    let heading = to_chars("[tasks.");
    let mut r = String::new();
    let mut i: usize = 0;
    while i < ls.len()
        invariant
            i <= ls.len(),
            heading@ == "[tasks."@,
            r@ == rewritten(rows(ls@), task_name@, i as int),
        decreases ls.len() - i,
    {
        if !r.as_str().is_empty() {
            r.append("\n");
        }
        let line = &ls[i];
        if heading.len() <= line.len() && crate::text::matches_at(line, &heading, 0) {
            proof {
                assert(line@.subrange(0, heading@.len() as int) == heading@);
            }
            r.append("[tasks.");
            r.append(task_name);
            r.append("]");
        } else {
            proof {
                if has_prefix(line@, heading@) {
                    assert(crate::text::occurs_at(line@, heading@, 0));
                }
            }
            push_chars(&mut r, line);
        }
        i += 1;
    }
    r
}

/// The kinds of project that the first `n` of the kinds `found`
/// supersede, kind by kind.
pub open spec fn superseded(
    environments: Map<Seq<char>, EnvironmentView>,
    found: Seq<Seq<char>>,
    n: int,
) -> Seq<Seq<char>>
    decreases n,
{
    if n <= 0 {
        Seq::empty()
    } else if environments.dom().contains(found[n - 1]) {
        superseded(environments, found, n - 1) + environments[found[n - 1]].alternative_to
    } else {
        superseded(environments, found, n - 1)
    }
}

/// Lists the kinds of project that the kinds `found` supersede.
pub fn alternative_envs(environments: &NameMap<Environment>, found: &Vec<String>) -> (r: Vec<String>)
    ensures
        texts(r@) == superseded(environments@, texts(found@), found@.len() as int),
{
    let mut r: Vec<String> = Vec::new();
    let mut i: usize = 0;
    assert(texts(r@) =~= Seq::<Seq<char>>::empty());
    while i < found.len()
        invariant
            i <= found.len(),
            texts(r@) == superseded(environments@, texts(found@), i as int),
        decreases found.len() - i,
    {
        match environments.get(found[i].as_str()) {
            Some(env) => {
                let ghost before = texts(r@);
                let mut k: usize = 0;
                assert(before + env@.alternative_to.take(0) =~= before);
                while k < env.alternative_to.len()
                    invariant
                        k <= env.alternative_to.len(),
                        texts(r@) == before + env@.alternative_to.take(k as int),
                    decreases env.alternative_to.len() - k,
                {
                    let ghost so_far = texts(r@);
                    r.push(env.alternative_to[k].clone());
                    proof {
                        assert(texts(r@) =~= so_far.push(env@.alternative_to[k as int]));
                        assert(before + env@.alternative_to.take(k + 1) =~= so_far.push(
                            env@.alternative_to[k as int],
                        ));
                    }
                    k += 1;
                }
                assert(env@.alternative_to.take(env@.alternative_to.len() as int)
                    =~= env@.alternative_to);
            },
            None => {},
        }
        i += 1;
    }
    r
}

/// How early a template is offered: 0 for the user's template for a
/// kind of project that was found, 1 for another template for such a
/// kind, 2 for a template for a kind that a found kind supersedes, 3
/// for every other.
pub open spec fn rank(t: TemplateMetaView, found: Seq<Seq<char>>, alternatives: Seq<Seq<char>>) -> int {
    let is_found = t.env is Some && found.contains(t.env->0);
    let is_alternative = t.env is Some && alternatives.contains(t.env->0);
    if is_found && t.is_user {
        0
    } else if is_found {
        1
    } else if is_alternative {
        2
    } else {
        3
    }
}

/// The positions among the first `n` templates of those of rank `r`.
pub open spec fn of_rank(
    all: Seq<TemplateMetaView>,
    found: Seq<Seq<char>>,
    alternatives: Seq<Seq<char>>,
    r: int,
    n: int,
) -> Seq<usize>
    decreases n,
{
    if n <= 0 {
        Seq::empty()
    } else if rank(all[n - 1], found, alternatives) == r {
        of_rank(all, found, alternatives, r, n - 1).push((n - 1) as usize)
    } else {
        of_rank(all, found, alternatives, r, n - 1)
    }
}

fn holds_name(list: &Vec<String>, name: &Option<String>) -> (r: bool)
    ensures
        r == (name is Some && texts(list@).contains(name->0@)),
{
    match name {
        Some(n) => has_text(list, n.as_str()),
        None => false,
    }
}

fn rank_of(t: &TemplateMeta, found: &Vec<String>, alternatives: &Vec<String>) -> (r: u8)
    ensures
        r as int == rank(t@, texts(found@), texts(alternatives@)),
{
    let is_found = holds_name(found, &t.env);
    if is_found && t.is_user {
        0
    } else if is_found {
        1
    } else if holds_name(alternatives, &t.env) {
        2
    } else {
        3
    }
}

/// Puts the templates in the order in which they are offered, as
/// positions in `all`: by rank, and within a rank as they stand in `all`.
pub fn sort_templates(all: &Vec<TemplateMeta>, found: &Vec<String>, alternatives: &Vec<String>) -> (r:
    Vec<usize>)
    ensures
        r@ == of_rank(
            templates(all@),
            texts(found@),
            texts(alternatives@),
            0,
            all@.len() as int,
        ) + of_rank(templates(all@), texts(found@), texts(alternatives@), 1, all@.len() as int)
            + of_rank(templates(all@), texts(found@), texts(alternatives@), 2, all@.len() as int)
            + of_rank(templates(all@), texts(found@), texts(alternatives@), 3, all@.len() as int),
        forall|k: int| 0 <= k < r@.len() ==> #[trigger] r@[k] < all@.len(),
{
    let ghost a = templates(all@);
    let ghost f = texts(found@);
    let ghost alt = texts(alternatives@);
    let mut r: Vec<usize> = Vec::new();
    let mut wanted: u8 = 0;
    while wanted < 4
        invariant
            wanted <= 4,
            a == templates(all@),
            f == texts(found@),
            alt == texts(alternatives@),
            forall|k: int| 0 <= k < r@.len() ==> #[trigger] r@[k] < all@.len(),
            wanted == 0 ==> r@ == Seq::<usize>::empty(),
            wanted == 1 ==> r@ == of_rank(a, f, alt, 0, all@.len() as int),
            wanted == 2 ==> r@ == of_rank(a, f, alt, 0, all@.len() as int) + of_rank(
                a,
                f,
                alt,
                1,
                all@.len() as int,
            ),
            wanted == 3 ==> r@ == of_rank(a, f, alt, 0, all@.len() as int) + of_rank(
                a,
                f,
                alt,
                1,
                all@.len() as int,
            ) + of_rank(a, f, alt, 2, all@.len() as int),
            wanted == 4 ==> r@ == of_rank(a, f, alt, 0, all@.len() as int) + of_rank(
                a,
                f,
                alt,
                1,
                all@.len() as int,
            ) + of_rank(a, f, alt, 2, all@.len() as int) + of_rank(
                a,
                f,
                alt,
                3,
                all@.len() as int,
            ),
        decreases 4 - wanted,
    {
        let ghost before = r@;
        let mut i: usize = 0;
        assert(before + Seq::<usize>::empty() =~= before);
        while i < all.len()
            invariant
                i <= all.len(),
                wanted < 4,
                a == templates(all@),
                f == texts(found@),
                alt == texts(alternatives@),
                forall|k: int| 0 <= k < r@.len() ==> #[trigger] r@[k] < all@.len(),
                r@ == before + of_rank(a, f, alt, wanted as int, i as int),
            decreases all.len() - i,
        {
            if rank_of(&all[i], found, alternatives) == wanted {
                let ghost so_far = r@;
                r.push(i);
                assert(before + of_rank(a, f, alt, wanted as int, i as int).push(i) =~= so_far.push(
                    i,
                ));
            }
            i += 1;
        }
        proof {
            if wanted == 0 {
                assert(before + of_rank(a, f, alt, 0, all@.len() as int) =~= of_rank(
                    a,
                    f,
                    alt,
                    0,
                    all@.len() as int,
                ));
            }
        }
        wanted += 1;
    }
    r
}

/// Whether the template at position `k` of `order` is for a kind of
/// project that was found and that no found kind supersedes.
pub open spec fn fits(
    all: Seq<TemplateMetaView>,
    order: Seq<usize>,
    found: Seq<Seq<char>>,
    alternatives: Seq<Seq<char>>,
    k: int,
) -> bool {
    0 <= k < order.len() && order[k] < all.len() && all[order[k] as int].env is Some
        && found.contains(all[order[k] as int].env->0) && !alternatives.contains(
        all[order[k] as int].env->0,
    )
}

/// Whether the template at position `k` of `order` is for no kind of project.
pub open spec fn plain(all: Seq<TemplateMetaView>, order: Seq<usize>, k: int) -> bool {
    0 <= k < order.len() && order[k] < all.len() && all[order[k] as int].env is None
}

/// The first position from `from` on that fits.
pub open spec fn first_fit(
    all: Seq<TemplateMetaView>,
    order: Seq<usize>,
    found: Seq<Seq<char>>,
    alternatives: Seq<Seq<char>>,
    from: int,
) -> Option<int>
    decreases order.len() - from,
{
    if from < 0 || from >= order.len() {
        None
    } else if fits(all, order, found, alternatives, from) {
        Some(from)
    } else {
        first_fit(all, order, found, alternatives, from + 1)
    }
}

/// The first position from `from` on that is plain.
pub open spec fn first_plain(all: Seq<TemplateMetaView>, order: Seq<usize>, from: int) -> Option<
    int,
>
    decreases order.len() - from,
{
    if from < 0 || from >= order.len() {
        None
    } else if plain(all, order, from) {
        Some(from)
    } else {
        first_plain(all, order, from + 1)
    }
}

/// The position in `order` of the template that is ticked to begin
/// with: the first for a kind of project that was found and that no
/// found kind supersedes, else the first that is for no kind of project.
pub open spec fn first_choice(
    all: Seq<TemplateMetaView>,
    order: Seq<usize>,
    found: Seq<Seq<char>>,
    alternatives: Seq<Seq<char>>,
) -> Option<int> {
    match first_fit(all, order, found, alternatives, 0) {
        Some(k) => Some(k),
        None => first_plain(all, order, 0),
    }
}

/// Finds the template that is ticked to begin with, as a position in `order`.
pub fn initial_choice(
    all: &Vec<TemplateMeta>,
    order: &Vec<usize>,
    found: &Vec<String>,
    alternatives: &Vec<String>,
) -> (r: Option<usize>)
    ensures
        match r {
            Some(k) => first_choice(templates(all@), order@, texts(found@), texts(alternatives@))
                == Some(k as int),
            None => first_choice(templates(all@), order@, texts(found@), texts(alternatives@))
                is None,
        },
{
    let ghost a = templates(all@);
    let ghost f = texts(found@);
    let ghost alt = texts(alternatives@);
    let mut k: usize = 0;
    while k < order.len()
        invariant
            k <= order.len(),
            a == templates(all@),
            f == texts(found@),
            alt == texts(alternatives@),
            first_fit(a, order@, f, alt, 0) == first_fit(a, order@, f, alt, k as int),
        decreases order.len() - k,
    {
        if order[k] < all.len() {
            let t = &all[order[k]];
            if holds_name(found, &t.env) && !holds_name(alternatives, &t.env) {
                return Some(k);
            }
        }
        k += 1;
    }
    let mut k: usize = 0;
    while k < order.len()
        invariant
            k <= order.len(),
            a == templates(all@),
            f == texts(found@),
            alt == texts(alternatives@),
            first_fit(a, order@, f, alt, 0) is None,
            first_plain(a, order@, 0) == first_plain(a, order@, k as int),
        decreases order.len() - k,
    {
        if order[k] < all.len() && all[order[k]].env.is_none() {
            return Some(k);
        }
        k += 1;
    }
    None
}

/// One part of a new configuration file: the content of a template
/// without its header, as a group where `grouping` gives the group's
/// name, the names of the template's tasks and its tool environment,
/// without white space round it, and two line feeds.
pub open spec fn part(content: Seq<char>, grouping: Option<(Seq<char>, Seq<Seq<char>>, Seq<char>)>) -> Seq<
    char,
> {
    let body = stripped(content);
    trimmed(
        match grouping {
            Some((group, names, env)) => as_taskgroup(body, group, names, env),
            None => body,
        },
    ) + "\n\n"@
}

/// Makes one part of a new configuration file from the content of a template.
pub fn template_part(
    content: &str,
    grouping: Option<(&str, &Vec<(String, Option<String>)>, &str)>,
) -> (r: String)
    ensures
        r@ == part(
            content@,
            match grouping {
                Some((group, names, env)) => Some((group@, task_names(names@), env@)),
                None => None,
            },
        ),
{
    let body = strip_template_section(content);
    let text = match grouping {
        Some((group, names, env)) => convert_to_taskgroup(body.as_str(), group, names, env),
        None => body,
    };
    let mut r = from_chars(&trim_chars(&to_chars(text.as_str())));
    r.append("\n\n");
    r
}

/// The name for a new task that `input` gives: `input` without the
/// white space round it, unless nothing is left of it.
pub open spec fn name_given(input: Option<Seq<char>>) -> Option<Seq<char>> {
    match input {
        Some(n) => if trimmed(n).len() > 0 {
            Some(trimmed(n))
        } else {
            None
        },
        None => None,
    }
}

/// Reads the name for a new task from `input`.
pub fn task_name_from(input: Option<&str>) -> (r: Option<String>)
    ensures
        crate::text::opt_text(r) == name_given(
            match input {
                Some(n) => Some(n@),
                None => None,
            },
        ),
{
    match input {
        Some(n) => {
            let t = trim_chars(&to_chars(n));
            if t.len() > 0 {
                Some(from_chars(&t))
            } else {
                None
            }
        },
        None => None,
    }
}

/// `existing` with the task `content` added at its end: after a line
/// feed where `existing` does not end with one, an empty line, then the
/// content and a line feed.
pub open spec fn with_task(existing: Seq<char>, content: Seq<char>) -> Seq<char> {
    (if existing.len() > 0 && existing.last() == '\n' {
        existing
    } else {
        existing + "\n"@
    }) + "\n"@ + content + "\n"@
}

/// Adds the task `content` at the end of the configuration file `existing`.
pub fn append_task(existing: &str, content: &str) -> (r: String)
    ensures
        r@ == with_task(existing@, content@),
{
    let v = to_chars(existing);
    let mut r = existing.to_owned();
    if !(v.len() > 0 && v[v.len() - 1] == '\n') {
        r.append("\n");
    }
    r.append("\n");
    r.append(content);
    r.append("\n");
    r
}

/// A heading of the cheatsheet.
pub open spec fn heading(title: Seq<char>) -> Seq<char> {
    "\x1b[36m"@ + title + "\x1b[0m\n"@
}

/// A heading of the cheatsheet with a note behind it.
pub open spec fn heading_noted(title: Seq<char>, note: Seq<char>) -> Seq<char> {
    "\x1b[36m"@ + title + "\x1b[0m  \x1b[2m"@ + note + "\x1b[0m\n"@
}

/// A comment line of the cheatsheet.
pub open spec fn remark(text: Seq<char>) -> Seq<char> {
    "\x1b[2m"@ + text + "\x1b[0m\n"@
}

/// The cheatsheet: what a configuration file may hold, by example.
pub open spec fn cheatsheet_text() -> Seq<char> {
    "\x1b[1mplz.toml cheatsheet\x1b[0m\n\n"@ + heading("Basic task"@)
        + "[tasks.build]\nrun = \"cargo build\"\n\n"@ + heading("Description (comment)"@) + remark(
        "# Build the project"@,
    ) + "[tasks.build]\nrun = \"cargo build\"\n\n"@ + heading("Description (explicit)"@)
        + "[tasks.build]\nrun = \"cargo build\"\ndescription = \"Build the project\"\n\n"@
        + heading("Serial execution"@)
        + "[tasks.fix]\nrun_serial = [\"cargo fmt\", \"cargo clippy --fix --allow-dirty\"]\n\n"@
        + heading("Parallel execution"@)
        + "[tasks.check]\nrun_parallel = [\"plz lint\", \"plz format\"]\n\n"@ + heading(
        "Task references"@,
    ) + "[tasks.check]\nrun_parallel = [\"plz:lint\", \"plz:format\"]\n\n"@ + heading(
        "Working directory"@,
    ) + "[tasks.frontend]\ndir = \"packages/web\"\nrun = \"pnpm dev\"\n\n"@ + heading_noted(
        "Environment wrappers"@,
        "pnpm | npm | uv | uvx"@,
    ) + "[tasks.vitest]\nrun = \"vitest\"\ntool_env = \"pnpm\"\n\n"@ + heading("Failure hooks"@)
        + remark("# suggest a fix command"@) + "fail_hook = { suggest_command = \"cargo fmt\" }\n"@
        + remark("# show a message"@) + "fail_hook = { message = \"Check the logs\" }\n"@ + remark(
        "# run a command"@,
    ) + "fail_hook = \"notify-send 'Tests failed'\"\n\n"@ + heading_noted(
        "Git hooks"@,
        "pre-commit | pre-push | commit-msg | post-commit | post-merge | post-checkout"@,
    ) + "[tasks.check]\nrun_parallel = [\"plz:lint\", \"plz:format\"]\ngit_hook = \"pre-commit\"\n\n"@
        + heading("Extends (global defaults)"@)
        + "[extends]\nenv = { NODE_ENV = \"production\" }\ndir = \"packages/app\"\n\n"@ + heading(
        "Task groups"@,
    ) + "[taskgroup.docs.build]\nrun = \"pnpm docs:build\"\n\n[taskgroup.docs.dev]\nrun = \"pnpm docs:dev\"\n"@
}

fn push_heading(out: &mut String, title: &str)
    ensures
        final(out)@ == old(out)@ + heading(title@),
{
    out.append("\x1b[36m");
    out.append(title);
    out.append("\x1b[0m\n");
    assert(out@ =~= old(out)@ + heading(title@));
}

fn push_heading_noted(out: &mut String, title: &str, note: &str)
    ensures
        final(out)@ == old(out)@ + heading_noted(title@, note@),
{
    out.append("\x1b[36m");
    out.append(title);
    out.append("\x1b[0m  \x1b[2m");
    out.append(note);
    out.append("\x1b[0m\n");
    assert(out@ =~= old(out)@ + heading_noted(title@, note@));
}

fn push_remark(out: &mut String, text: &str)
    ensures
        final(out)@ == old(out)@ + remark(text@),
{
    out.append("\x1b[2m");
    out.append(text);
    out.append("\x1b[0m\n");
    assert(out@ =~= old(out)@ + remark(text@));
}

/// Writes the cheatsheet.
pub fn cheatsheet() -> (r: String)
    ensures
        r@ == cheatsheet_text(),
{
    let mut out = "\x1b[1mplz.toml cheatsheet\x1b[0m\n\n".to_owned();
    push_heading(&mut out, "Basic task");
    out.append("[tasks.build]\nrun = \"cargo build\"\n\n");
    push_heading(&mut out, "Description (comment)");
    push_remark(&mut out, "# Build the project");
    out.append("[tasks.build]\nrun = \"cargo build\"\n\n");
    push_heading(&mut out, "Description (explicit)");
    out.append("[tasks.build]\nrun = \"cargo build\"\ndescription = \"Build the project\"\n\n");
    push_heading(&mut out, "Serial execution");
    out.append(
        "[tasks.fix]\nrun_serial = [\"cargo fmt\", \"cargo clippy --fix --allow-dirty\"]\n\n",
    );
    push_heading(&mut out, "Parallel execution");
    out.append("[tasks.check]\nrun_parallel = [\"plz lint\", \"plz format\"]\n\n");
    push_heading(&mut out, "Task references");
    out.append("[tasks.check]\nrun_parallel = [\"plz:lint\", \"plz:format\"]\n\n");
    push_heading(&mut out, "Working directory");
    out.append("[tasks.frontend]\ndir = \"packages/web\"\nrun = \"pnpm dev\"\n\n");
    push_heading_noted(&mut out, "Environment wrappers", "pnpm | npm | uv | uvx");
    out.append("[tasks.vitest]\nrun = \"vitest\"\ntool_env = \"pnpm\"\n\n");
    push_heading(&mut out, "Failure hooks");
    push_remark(&mut out, "# suggest a fix command");
    out.append("fail_hook = { suggest_command = \"cargo fmt\" }\n");
    push_remark(&mut out, "# show a message");
    out.append("fail_hook = { message = \"Check the logs\" }\n");
    push_remark(&mut out, "# run a command");
    out.append("fail_hook = \"notify-send 'Tests failed'\"\n\n");
    push_heading_noted(
        &mut out,
        "Git hooks",
        "pre-commit | pre-push | commit-msg | post-commit | post-merge | post-checkout",
    );
    out.append(
        "[tasks.check]\nrun_parallel = [\"plz:lint\", \"plz:format\"]\ngit_hook = \"pre-commit\"\n\n",
    );
    push_heading(&mut out, "Extends (global defaults)");
    out.append("[extends]\nenv = { NODE_ENV = \"production\" }\ndir = \"packages/app\"\n\n");
    push_heading(&mut out, "Task groups");
    out.append(
        "[taskgroup.docs.build]\nrun = \"pnpm docs:build\"\n\n[taskgroup.docs.dev]\nrun = \"pnpm docs:dev\"\n",
    );
    out
}

/// A ready-made task on offer: the kind of project it is for, as a
/// position in the list of kinds, its position among the tasks for that
/// kind, and the label under which it is shown.
#[derive(Debug)]
pub struct SnippetChoice {
    pub env: usize,
    pub index: usize,
    pub label: String,
}

pub struct SnippetChoiceView {
    pub env: int,
    pub index: int,
    pub label: Seq<char>,
}

impl View for SnippetChoice {
    type V = SnippetChoiceView;

    open spec fn view(&self) -> SnippetChoiceView {
        SnippetChoiceView { env: self.env as int, index: self.index as int, label: self.label@ }
    }
}

/// The views of a list of choices.
pub open spec fn choices(v: Seq<SnippetChoice>) -> Seq<SnippetChoiceView> {
    Seq::new(v.len(), |i: int| v[i]@)
}

/// The names of the kinds of project and of their ready-made tasks.
pub open spec fn snippet_names(v: Seq<(String, Vec<Snippet>)>) -> Seq<(Seq<char>, Seq<Seq<char>>)> {
    Seq::new(v.len(), |i: int| (v[i].0@, Seq::new(v[i].1@.len(), |k: int| v[i].1@[k].name@)))
}

/// How early the tasks for the kind `env` are offered: 0 for a kind of
/// project that was found, 1 for the kind `general`, 2 for every other.
pub open spec fn snippet_rank(env: Seq<char>, found: Seq<Seq<char>>) -> int {
    if found.contains(env) {
        0
    } else if env == "general"@ {
        1
    } else {
        2
    }
}

/// The choices for the tasks `names` of the kind at position `e`, which
/// is called `env`: of rank 2 they are shown with the kind behind the name.
pub open spec fn choices_for(e: int, env: Seq<char>, names: Seq<Seq<char>>, rank: int) -> Seq<
    SnippetChoiceView,
> {
    Seq::new(
        names.len(),
        |k: int|
            SnippetChoiceView {
                env: e,
                index: k,
                label: if rank == 2 {
                    names[k] + " ("@ + env + ")"@
                } else {
                    names[k]
                },
            },
    )
}

/// The choices for the kinds of rank `rank` among the first `n` kinds.
pub open spec fn choices_of_rank(
    all: Seq<(Seq<char>, Seq<Seq<char>>)>,
    found: Seq<Seq<char>>,
    rank: int,
    n: int,
) -> Seq<SnippetChoiceView>
    decreases n,
{
    if n <= 0 {
        Seq::empty()
    } else if snippet_rank(all[n - 1].0, found) == rank {
        choices_of_rank(all, found, rank, n - 1) + choices_for(
            n - 1,
            all[n - 1].0,
            all[n - 1].1,
            rank,
        )
    } else {
        choices_of_rank(all, found, rank, n - 1)
    }
}

/// Lists the ready-made tasks in the order in which they are offered:
/// those for the kinds of project that were found, then the general
/// ones, then the others, each with its kind behind its name.
pub fn snippet_menu(all: &Vec<(String, Vec<Snippet>)>, found: &Vec<String>) -> (r: Vec<SnippetChoice>)
    ensures
        choices(r@) == choices_of_rank(snippet_names(all@), texts(found@), 0, all@.len() as int)
            + choices_of_rank(snippet_names(all@), texts(found@), 1, all@.len() as int)
            + choices_of_rank(snippet_names(all@), texts(found@), 2, all@.len() as int),
{
    let ghost a = snippet_names(all@);
    let ghost f = texts(found@);
    let mut r: Vec<SnippetChoice> = Vec::new();
    let mut wanted: u8 = 0;
    assert(choices(r@) =~= Seq::<SnippetChoiceView>::empty());
    while wanted < 3
        invariant
            wanted <= 3,
            a == snippet_names(all@),
            f == texts(found@),
            wanted == 0 ==> choices(r@) == Seq::<SnippetChoiceView>::empty(),
            wanted == 1 ==> choices(r@) == choices_of_rank(a, f, 0, all@.len() as int),
            wanted == 2 ==> choices(r@) == choices_of_rank(a, f, 0, all@.len() as int)
                + choices_of_rank(a, f, 1, all@.len() as int),
            wanted == 3 ==> choices(r@) == choices_of_rank(a, f, 0, all@.len() as int)
                + choices_of_rank(a, f, 1, all@.len() as int) + choices_of_rank(
                a,
                f,
                2,
                all@.len() as int,
            ),
        decreases 3 - wanted,
    {
        let ghost before = choices(r@);
        let mut e: usize = 0;
        assert(before + Seq::<SnippetChoiceView>::empty() =~= before);
        while e < all.len()
            invariant
                e <= all.len(),
                wanted < 3,
                a == snippet_names(all@),
                f == texts(found@),
                choices(r@) == before + choices_of_rank(a, f, wanted as int, e as int),
            decreases all.len() - e,
        {
            let env = all[e].0.as_str();
            let rank: u8 = if has_text(found, env) {
                0
            } else if same_text(env, "general") {
                1
            } else {
                2
            };
            if rank == wanted {
                let ghost start = choices(r@);
                let ghost row = choices_for(e as int, a[e as int].0, a[e as int].1, wanted as int);
                let snippets = &all[e].1;
                let mut k: usize = 0;
                assert(start + row.take(0) =~= start);
                while k < snippets.len()
                    invariant
                        k <= snippets.len(),
                        e < all.len(),
                        wanted < 3,
                        snippets == &all@[e as int].1,
                        env@ == all@[e as int].0@,
                        a == snippet_names(all@),
                        row == choices_for(e as int, a[e as int].0, a[e as int].1, wanted as int),
                        choices(r@) == start + row.take(k as int),
                    decreases snippets.len() - k,
                {
                    let label = if wanted == 2 {
                        let mut l = concat3(snippets[k].name.as_str(), " (", env);
                        l.append(")");
                        l
                    } else {
                        snippets[k].name.clone()
                    };
                    let choice = SnippetChoice { env: e, index: k, label };
                    let ghost so_far = choices(r@);
                    r.push(choice);
                    proof {
                        assert(choice@ == row[k as int]);
                        assert(choices(r@) =~= so_far.push(choice@));
                        assert(start + row.take(k + 1) =~= so_far.push(row[k as int]));
                    }
                    k += 1;
                }
                proof {
                    assert(row.take(row.len() as int) =~= row);
                    assert(before + (choices_of_rank(a, f, wanted as int, e as int) + row)
                        =~= start + row);
                }
            }
            e += 1;
        }
        proof {
            if wanted == 0 {
                assert(before + choices_of_rank(a, f, 0, all@.len() as int) =~= choices_of_rank(
                    a,
                    f,
                    0,
                    all@.len() as int,
                ));
            }
        }
        wanted += 1;
    }
    r
}

/// The number of bytes that `s` takes, as `str::len` tells it.
pub open spec fn byte_len(s: Seq<char>) -> int {
    (vstd::utf8::encode_utf8(s).len() as usize) as int
}

/// The largest number of bytes that the name of one of the first `n`
/// templates of `order` takes.
pub open spec fn longest_name(all: Seq<TemplateMetaView>, order: Seq<usize>, n: int) -> int
    decreases n,
{
    if n <= 0 {
        0
    } else {
        let before = longest_name(all, order, n - 1);
        if order[n - 1] < all.len() && byte_len(all[order[n - 1] as int].name) > before {
            byte_len(all[order[n - 1] as int].name)
        } else {
            before
        }
    }
}

/// The label of a template in the list to tick: its name, spaces up to
/// two past `width` bytes, and its description.
pub open spec fn template_label(t: TemplateMetaView, width: int) -> Seq<char> {
    t.name + spaces(width - byte_len(t.name) + 2) + t.description
}

proof fn lemma_longest_bounds(all: Seq<TemplateMetaView>, order: Seq<usize>, n: int, i: int)
    requires
        0 <= i < n <= order.len(),
        order[i] < all.len(),
    ensures
        byte_len(all[order[i] as int].name) <= longest_name(all, order, n),
    decreases n,
{
    if i < n - 1 {
        lemma_longest_bounds(all, order, n - 1, i);
    }
}

/// The templates in the order in which they are offered, as positions
/// in `all`, and the list to tick them in, with the first choice ticked.
pub fn template_menu(all: &Vec<TemplateMeta>, found: &Vec<String>, alternatives: &Vec<String>) -> (r:
    (Vec<usize>, Vec<MultiSelectItem>))
    ensures
        r.0@ == of_rank(templates(all@), texts(found@), texts(alternatives@), 0, all@.len() as int)
            + of_rank(templates(all@), texts(found@), texts(alternatives@), 1, all@.len() as int)
            + of_rank(templates(all@), texts(found@), texts(alternatives@), 2, all@.len() as int)
            + of_rank(templates(all@), texts(found@), texts(alternatives@), 3, all@.len() as int),
        r.1@.len() == r.0@.len(),
        forall|k: int|
            0 <= k < r.0@.len() ==> {
                &&& r.0@[k] < all@.len()
                &&& (#[trigger] r.1@[k]).label@ == template_label(
                    all@[r.0@[k] as int]@,
                    longest_name(templates(all@), r.0@, r.0@.len() as int),
                )
                &&& r.1@[k].hint@ == Seq::<char>::empty()
                &&& r.1@[k].selected == (first_choice(
                    templates(all@),
                    r.0@,
                    texts(found@),
                    texts(alternatives@),
                ) == Some(k))
            },
{
    let order = sort_templates(all, found, alternatives);
    let initial = initial_choice(all, &order, found, alternatives);
    let items = template_items(all, &order, initial);
    proof {
        assert forall|k: int| 0 <= k < order@.len() implies (#[trigger] items@[k]).selected == (
        first_choice(templates(all@), order@, texts(found@), texts(alternatives@)) == Some(k)) by {
            assert(items@[k].selected == (initial == Some(k as usize)));
            assert(order.len() == order@.len());
            match initial {
                Some(c) => {
                    assert((c == k as usize) == (c as int == k));
                },
                None => {},
            }
        }
    }
    (order, items)
}

fn template_items(all: &Vec<TemplateMeta>, order: &Vec<usize>, initial: Option<usize>) -> (r: Vec<
    MultiSelectItem,
>)
    requires
        forall|k: int| 0 <= k < order@.len() ==> #[trigger] order@[k] < all@.len(),
    ensures
        r@.len() == order@.len(),
        forall|k: int|
            0 <= k < order@.len() ==> {
                &&& (#[trigger] r@[k]).label@ == template_label(
                    all@[order@[k] as int]@,
                    longest_name(templates(all@), order@, order@.len() as int),
                )
                &&& r@[k].hint@ == Seq::<char>::empty()
                &&& r@[k].selected == (initial == Some(k as usize))
            },
{
    let ghost a = templates(all@);
    let mut width: usize = 0;
    let mut i: usize = 0;
    while i < order.len()
        invariant
            i <= order.len(),
            a == templates(all@),
            forall|k: int| 0 <= k < order@.len() ==> #[trigger] order@[k] < all@.len(),
            width == longest_name(a, order@, i as int),
        decreases order.len() - i,
    {
        let n = all[order[i]].name.as_str().len();
        if n > width {
            width = n;
        }
        i += 1;
    }
    let mut r: Vec<MultiSelectItem> = Vec::new();
    let mut k: usize = 0;
    while k < order.len()
        invariant
            k <= order.len(),
            a == templates(all@),
            forall|j: int| 0 <= j < order@.len() ==> #[trigger] order@[j] < all@.len(),
            width == longest_name(a, order@, order@.len() as int),
            r@.len() == k,
            forall|j: int|
                0 <= j < k ==> {
                    &&& (#[trigger] r@[j]).label@ == template_label(
                        all@[order@[j] as int]@,
                        width as int,
                    )
                    &&& r@[j].hint@ == Seq::<char>::empty()
                    &&& r@[j].selected == (initial == Some(j as usize))
                },
        decreases order.len() - k,
    {
        let t = &all[order[k]];
        let n = t.name.as_str().len();
        proof {
            lemma_longest_bounds(a, order@, order@.len() as int, k as int);
        }
        let mut label = t.name.clone();
        push_spaces(&mut label, width - n);
        push_spaces(&mut label, 2);
        label.append(t.description.as_str());
        proof {
            assert(spaces(width - n) + spaces(2) =~= spaces(width - n + 2));
        }
        let selected = match initial {
            Some(c) => c == k,
            None => false,
        };
        r.push(MultiSelectItem { label, hint: String::new(), selected });
        k += 1;
    }
    r
}

} // verus!
