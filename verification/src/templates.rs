//! Templates for new configuration files.

use crate::names::NameMap;
use crate::order::{keep_marked, marked, ordered, sorted_keys};
use crate::text::{
    chars_are, from_chars, has_text, lines, opt_text, rows, same_text, split_lines, texts,
    to_chars, trim_chars, trim_start, trim_start_chars, trimmed,
};
use vstd::prelude::*;

verus! {

/// How a kind of project is told from the files in its directory.
#[derive(Clone, Debug)]
pub struct Environment {
    /// The files one of which marks a project of this kind.
    pub patterns: Vec<String>,
    /// The kinds of project that this kind supersedes.
    pub alternative_to: Vec<String>,
}

pub struct EnvironmentView {
    pub patterns: Seq<Seq<char>>,
    pub alternative_to: Seq<Seq<char>>,
}

impl View for Environment {
    type V = EnvironmentView;

    open spec fn view(&self) -> EnvironmentView {
        EnvironmentView {
            patterns: texts(self.patterns@),
            alternative_to: texts(self.alternative_to@),
        }
    }
}

/// A template, with what its header says of it.
#[derive(Clone, Debug)]
pub struct TemplateMeta {
    pub name: String,
    pub description: String,
    pub env: Option<String>,
    pub content: String,
    pub is_user: bool,
}

/// A ready-made task.
#[derive(Clone, Debug)]
pub struct Snippet {
    pub name: String,
    pub description: String,
    pub content: String,
}

/// What is kept of the lines `ls` of a template, each line followed by a
/// line feed. The line `[template]` opens the header and is dropped with
/// the lines after it, up to the first empty line, which is dropped too,
/// or up to the next line that begins with `[`, which is kept. White
/// space round a line does not count in any of this. `inside` says
/// whether the lines begin inside the header.
pub open spec fn kept(ls: Seq<Seq<char>>, inside: bool) -> Seq<char>
    decreases ls.len(),
{
    if ls.len() == 0 {
        Seq::empty()
    } else {
        let t = trimmed(ls[0]);
        let rest = ls.drop_first();
        if t == "[template]"@ {
            kept(rest, true)
        } else if inside && !(t.len() > 0 && t[0] == '[') {
            kept(rest, t.len() > 0)
        } else {
            ls[0] + seq!['\n'] + kept(rest, false)
        }
    }
}

/// `content` without its header, and without white space at its beginning.
pub open spec fn stripped(content: Seq<char>) -> Seq<char> {
    trim_start(kept(lines(content), false))
}

/// Takes the header, the section `[template]`, out of a template.
pub fn strip_template_section(content: &str) -> (r: String)
    ensures
        r@ == stripped(content@),
{
    let v = to_chars(content);
    let ls = split_lines(&v);
    let mut out: Vec<char> = Vec::new();
    let mut inside = false;
    let mut i: usize = 0;
    assert(rows(ls@).skip(0) =~= rows(ls@));
    assert(out@ + kept(rows(ls@), false) =~= kept(rows(ls@), false));
    while i < ls.len()
        invariant
            i <= ls.len(),
            kept(rows(ls@), false) == out@ + kept(rows(ls@).skip(i as int), inside),
        decreases ls.len() - i,
    {
        let ghost here = rows(ls@).skip(i as int);
        proof {
            assert(here[0] == ls@[i as int]@);
            assert(here.drop_first() =~= rows(ls@).skip(i + 1));
        }
        let t = trim_chars(&ls[i]);
        if chars_are(&t, "[template]") {
            inside = true;
        } else if inside && !(t.len() > 0 && t[0] == '[') {
            inside = t.len() > 0;
        } else {
            let ghost before = out@;
            let line = &ls[i];
            let mut k: usize = 0;
            while k < line.len()
                invariant
                    k <= line.len(),
                    out@ == before + line@.take(k as int),
                decreases line.len() - k,
            {
                out.push(line[k]);
                assert(out@ =~= before + line@.take(k + 1));
                k += 1;
            }
            out.push('\n');
            proof {
                assert(line@.take(line@.len() as int) =~= line@);
                assert(out@ =~= before + (line@ + seq!['\n']));
                assert(before + (line@ + seq!['\n'] + kept(here.drop_first(), false)) =~= out@
                    + kept(here.drop_first(), false));
            }
            inside = false;
        }
        i += 1;
    }
    proof {
        assert(rows(ls@).skip(ls@.len() as int) =~= Seq::<Seq<char>>::empty());
        assert(out@ + Seq::<char>::empty() =~= out@);
    }
    from_chars(&trim_start_chars(&out))
}

/// Whether one of the files that mark the kind of project is present.
pub open spec fn marked_by(env: EnvironmentView, present: Seq<Seq<char>>) -> bool {
    exists|i: int| 0 <= i < env.patterns.len() && present.contains(#[trigger] env.patterns[i])
}

/// The kinds of project that the files `present` mark.
pub open spec fn detected(
    environments: Map<Seq<char>, EnvironmentView>,
    present: Seq<Seq<char>>,
) -> Set<Seq<char>> {
    Set::new(
        |k: Seq<char>| environments.dom().contains(k) && marked_by(environments[k], present),
    )
}

fn is_marked(env: &Environment, present: &Vec<String>) -> (r: bool)
    ensures
        r == marked_by(env@, texts(present@)),
{
    let mut i: usize = 0;
    while i < env.patterns.len()
        invariant
            i <= env.patterns.len(),
            forall|j: int|
                0 <= j < i ==> !texts(present@).contains(#[trigger] env@.patterns[j]),
        decreases env.patterns.len() - i,
    {
        if has_text(present, env.patterns[i].as_str()) {
            assert(texts(present@).contains(env@.patterns[i as int]));
            return true;
        }
        i += 1;
    }
    false
}

/// Tells the kinds of project of a directory, in ascending order:
/// `present` lists the marking files that are found in it.
pub fn detect_environments(environments: &NameMap<Environment>, present: &Vec<String>) -> (r: Vec<
    String,
>)
    ensures
        texts(r@) == ordered(detected(environments@, texts(present@))),
        crate::order::ascending(texts(r@)),
        texts(r@).to_set() == detected(environments@, texts(present@)),
{
    let keys = sorted_keys(environments);
    let mut marks: Vec<bool> = Vec::new();
    let mut i: usize = 0;
    while i < keys.len()
        invariant
            i <= keys.len(),
            marks@.len() == i,
            texts(keys@).to_set() == environments@.dom(),
            forall|j: int|
                0 <= j < i ==> marks@[j] == marked_by(
                    environments@[#[trigger] texts(keys@)[j]],
                    texts(present@),
                ),
        decreases keys.len() - i,
    {
        assert(texts(keys@).to_set().contains(texts(keys@)[i as int]));
        let found = match environments.get(keys[i].as_str()) {
            Some(env) => is_marked(env, present),
            None => false,
        };
        marks.push(found);
        i += 1;
    }
    let r = keep_marked(&keys, &marks);
    proof {
        let ks = texts(keys@);
        let goal = detected(environments@, texts(present@));
        assert forall|x: Seq<char>| marked(ks, marks@).contains(x) <==> goal.contains(x) by {
            if marked(ks, marks@).contains(x) {
                let j = choose|j: int|
                    0 <= j < ks.len() && j < marks@.len() && ks[j] == x && marks@[j];
                assert(ks.to_set().contains(ks[j]));
            }
            if goal.contains(x) {
                assert(ks.to_set().contains(x));
                let j = choose|j: int| 0 <= j < ks.len() && ks[j] == x;
                assert(marks@[j]);
            }
        }
        assert(marked(ks, marks@) =~= goal);
    }
    r
}

pub struct TemplateMetaView {
    pub name: Seq<char>,
    pub description: Seq<char>,
    pub env: Option<Seq<char>>,
    pub content: Seq<char>,
    pub is_user: bool,
}

impl View for TemplateMeta {
    type V = TemplateMetaView;

    open spec fn view(&self) -> TemplateMetaView {
        TemplateMetaView {
            name: self.name@,
            description: self.description@,
            env: opt_text(self.env),
            content: self.content@,
            is_user: self.is_user,
        }
    }
}

impl TemplateMeta {
    /// A copy of the template.
    pub fn duplicate(&self) -> (r: TemplateMeta)
        ensures
            r@ == self@,
    {
        TemplateMeta {
            name: self.name.clone(),
            description: self.description.clone(),
            env: match &self.env {
                Some(e) => Some(e.clone()),
                None => None,
            },
            content: self.content.clone(),
            is_user: self.is_user,
        }
    }
}

/// The view of a template that may be missing.
pub open spec fn opt_template(o: Option<TemplateMeta>) -> Option<TemplateMetaView> {
    match o {
        Some(t) => Some(t@),
        None => None,
    }
}

/// The views of a list of templates.
pub open spec fn templates(v: Seq<TemplateMeta>) -> Seq<TemplateMetaView> {
    Seq::new(v.len(), |i: int| v[i]@)
}

/// A built-in template as it was read: its name, and what its header
/// says where the header could be read.
pub open spec fn built_ins(v: Seq<(String, Option<TemplateMeta>)>) -> Seq<
    (Seq<char>, Option<TemplateMetaView>),
> {
    Seq::new(
        v.len(),
        |i: int|
            (
                v[i].0@,
                match v[i].1 {
                    Some(t) => Some(t@),
                    None => None,
                },
            ),
    )
}

/// The first `n` built-in templates in order, and before the one that is
/// named like the tool environment of the user's template, the user's
/// template.
pub open spec fn arranged(
    user: Option<TemplateMetaView>,
    built_in: Seq<(Seq<char>, Option<TemplateMetaView>)>,
    n: int,
) -> Seq<TemplateMetaView>
    decreases n,
{
    if n <= 0 {
        Seq::empty()
    } else {
        let before = arranged(user, built_in, n - 1);
        let with_user = match user {
            Some(u) => if u.env == Some(built_in[n - 1].0) {
                before.push(u)
            } else {
                before
            },
            None => before,
        };
        match built_in[n - 1].1 {
            Some(t) => with_user.push(t),
            None => with_user,
        }
    }
}

/// Whether a built-in template is named `name`.
pub open spec fn names_built_in(
    built_in: Seq<(Seq<char>, Option<TemplateMetaView>)>,
    name: Option<Seq<char>>,
) -> bool {
    exists|i: int| 0 <= i < built_in.len() && name == Some(#[trigger] built_in[i].0)
}

/// All templates in the order in which they are offered: the built-in
/// ones in their order, the user's template before the built-in one that
/// is named like its tool environment, and at the end where none is.
pub open spec fn all_templates(
    user: Option<TemplateMetaView>,
    built_in: Seq<(Seq<char>, Option<TemplateMetaView>)>,
) -> Seq<TemplateMetaView> {
    let listed = arranged(user, built_in, built_in.len() as int);
    match user {
        Some(u) => if names_built_in(built_in, u.env) {
            listed
        } else {
            listed.push(u)
        },
        None => listed,
    }
}

fn env_is(template: &TemplateMeta, name: &str) -> (r: bool)
    ensures
        r == (template@.env == Some(name@)),
{
    match &template.env {
        Some(e) => same_text(e.as_str(), name),
        None => false,
    }
}

/// Puts the templates in the order in which they are offered.
pub fn arrange_templates(user: Option<TemplateMeta>, built_in: Vec<(String, Option<TemplateMeta>)>) -> (r:
    Vec<TemplateMeta>)
    ensures
        templates(r@) == all_templates(opt_template(user), built_ins(built_in@)),
{
    let ghost u = opt_template(user);
    let ghost b = built_ins(built_in@);
    let mut r: Vec<TemplateMeta> = Vec::new();
    let mut named = false;
    let mut i: usize = 0;
    assert(templates(r@) =~= Seq::<TemplateMetaView>::empty());
    while i < built_in.len()
        invariant
            i <= built_in.len(),
            b == built_ins(built_in@),
            u == opt_template(user),
            templates(r@) == arranged(u, b, i as int),
            named == (user is Some && exists|j: int|
                0 <= j < i && user->0@.env == Some(#[trigger] b[j].0)),
        decreases built_in.len() - i,
    {
        let ghost before = templates(r@);
        let name = built_in[i].0.as_str();
        match &user {
            Some(ut) => {
                if env_is(ut, name) {
                    let copy = ut.duplicate();
                    r.push(copy);
                    assert(templates(r@) =~= before.push(copy@));
                    assert(user->0@.env == Some(b[i as int].0));
                    named = true;
                }
            },
            None => {},
        }
        let ghost middle = templates(r@);
        match &built_in[i].1 {
            Some(t) => {
                let copy = t.duplicate();
                r.push(copy);
                assert(templates(r@) =~= middle.push(copy@));
            },
            None => {},
        }
        proof {
            if user is Some && exists|j: int| 0 <= j < i + 1 && user->0@.env == Some(
                #[trigger] b[j].0,
            ) {
                let j = choose|j: int| 0 <= j < i + 1 && user->0@.env == Some(#[trigger] b[j].0);
                if j < i {
                    assert(named);
                }
            }
        }
        i += 1;
    }
    match user {
        Some(ut) => {
            if !named {
                let ghost before = templates(r@);
                r.push(ut);
                assert(templates(r@) =~= before.push(ut@));
            }
        },
        None => {},
    }
    r
}

} // verus!
