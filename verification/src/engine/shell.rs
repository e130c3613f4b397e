//! What the shell and the file system make of text: quoting arguments and
//! joining paths.

use crate::runner::{RunError, RunErrorView};
use crate::text::{concat3, opt_text, texts};
use vstd::prelude::*;

verus! {

/// What `shlex::try_join` makes of `words`: each word quoted for the shell
/// where it needs quoting, with one space between neighbours.
pub uninterp spec fn shell_joined(words: Seq<Seq<char>>) -> Seq<char>;

/// What `Path::join` makes of the path `base` and the path `dir`.
pub uninterp spec fn path_joined(base: Seq<char>, dir: Seq<char>) -> Seq<char>;

/// Whether some word holds a nul character.
pub open spec fn holds_nul(words: Seq<Seq<char>>) -> bool {
    exists|i: int| 0 <= i < words.len() && #[trigger] words[i].contains('\0')
}

#[verifier::external_type_specification]
#[verifier::external_body]
pub struct ExQuoteError(shlex::QuoteError);

/// `shlex::try_join`: quotes each word for the shell where it needs
/// quoting and puts one space between neighbours. It fails exactly when a
/// word holds a nul character, which no quoting can pass to a shell.
#[verifier::external_body]
fn try_join(words: &Vec<String>) -> (r: Result<String, shlex::QuoteError>)
    ensures
        r is Err <==> holds_nul(texts(words@)),
        r matches Ok(s) ==> s@ == shell_joined(texts(words@)),
{
    shlex::try_join(words.iter().map(|s| s.as_str()))
}

/// `Path::join`: the path `dir` taken from the directory `base`.
#[verifier::external_body]
fn join_path(base: &str, dir: &str) -> (r: String)
    ensures
        r@ == path_joined(base@, dir@),
{
    std::path::Path::new(base).join(dir).to_string_lossy().into_owned()
}

/// The path `name` taken from the directory `base`.
pub(crate) fn join_in(base: &str, name: &str) -> (r: String)
    ensures
        r@ == path_joined(base@, name@),
{
    join_path(base, name)
}

/// The directory in which the commands of a task run: `dir` taken from
/// `base` where the task names one, else `base` itself.
pub open spec fn work_dir(base: Seq<char>, dir: Option<Seq<char>>) -> Seq<char> {
    match dir {
        Some(d) => path_joined(base, d),
        None => base,
    }
}

/// The directory in which the commands of a task run.
pub fn working_directory(base: &str, dir: &Option<String>) -> (r: String)
    ensures
        r@ == work_dir(base@, opt_text(*dir)),
{
    match dir {
        Some(d) => join_path(base, d.as_str()),
        None => base.to_owned(),
    }
}

/// `command` followed by a space and the quoted arguments.
pub fn with_arguments(command: &str, quoted: &str) -> (r: String)
    ensures
        r@ == command@ + seq![' '] + quoted@,
{
    proof {
        reveal_strlit(" ");
        assert(" "@ =~= seq![' ']);
    }
    concat3(command, " ", quoted)
}

/// The command line made of `command` and the extra arguments `args`:
/// `command` alone where there are none, else `command`, a space and the
/// arguments quoted for the shell. Arguments that hold a nul character
/// cannot be quoted.
pub open spec fn command_line(command: Seq<char>, args: Seq<Seq<char>>) -> Result<Seq<char>, ()> {
    if args.len() == 0 {
        Ok(command)
    } else if holds_nul(args) {
        Err(())
    } else {
        Ok(command + seq![' '] + shell_joined(args))
    }
}

/// Appends the extra arguments `args`, quoted for the shell, to `command`.
pub fn full_command(command: String, args: &Vec<String>) -> (r: Result<String, RunError>)
    ensures
        match r {
            Ok(line) => command_line(command@, texts(args@)) == Ok::<Seq<char>, ()>(line@),
            Err(e) => command_line(command@, texts(args@)) is Err && e@
                == RunErrorView::Unquotable,
        },
{
    if args.len() == 0 {
        Ok(command)
    } else {
        match try_join(args) {
            Ok(quoted) => Ok(with_arguments(command.as_str(), quoted.as_str())),
            Err(_) => Err(RunError::Unquotable),
        }
    }
}

} // verus!
