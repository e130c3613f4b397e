//! The words in which a run speaks to the user.

use crate::engine::model::{marks, Notice, NoticeView, Question, QuestionView, Request, RequestView};
use crate::text::{concat2, concat3, decimal, joined, push_digits, texts};
use vstd::prelude::*;

verus! {

/// One entry of a summary: the name after a green check mark, or after a
/// red cross.
pub open spec fn mark_text(mark: (Seq<char>, bool)) -> Seq<char> {
    if mark.1 {
        "\x1b[32m✓ "@ + mark.0 + "\x1b[0m"@
    } else {
        "\x1b[31m✗ "@ + mark.0 + "\x1b[0m"@
    }
}

/// The entries of a summary, in order.
pub open spec fn mark_texts(marks: Seq<(Seq<char>, bool)>) -> Seq<Seq<char>> {
    Seq::new(marks.len(), |i: int| mark_text(marks[i]))
}

impl NoticeView {
    /// The notice in words, as it is written to the terminal.
    pub open spec fn text(self) -> Seq<char> {
        match self {
            NoticeView::TaskFailed { name: None, error } => "\n\x1b[31mTask failed:\x1b[0m "@
                + error.message(),
            NoticeView::TaskFailed { name: Some(n), error } => "\n\x1b[31mTask failed:\x1b[0m "@
                + n + ": "@ + error.message(),
            NoticeView::RunningHook(c) => "Running fail hook: "@ + c,
            NoticeView::Warning(m) => "⚠️  "@ + m,
            NoticeView::Suggestion(c) => "\x1b[33mSuggestion:\x1b[0m try running \x1b[1m"@ + c
                + "\x1b[0m"@,
            NoticeView::FixFailed => "\x1b[31mFix command failed.\x1b[0m"@,
            NoticeView::Summary(m) => "\nRan "@ + decimal(m.len() as int) + " tasks: "@ + joined(
                mark_texts(m),
                "  "@,
            ),
        }
    }
}

impl QuestionView {
    /// The question in words.
    pub open spec fn text(self) -> Seq<char> {
        match self {
            QuestionView::RunFix(c) => "Run `"@ + c + "`?"@,
            QuestionView::ContinueNext => "Continue to next task?"@,
        }
    }
}

impl RequestView {
    /// The line that announces a command: an arrow and the command, and
    /// `&` behind a command that is not waited for. Other requests are
    /// not announced.
    pub open spec fn echo(self) -> Option<Seq<char>> {
        match self {
            RequestView::Shell { command, dir } => Some("→ "@ + command),
            RequestView::Spawn { command, dir } => Some("→ "@ + command + " &"@),
            _ => None,
        }
    }
}

impl Notice {
    /// The notice in words, as it is written to the terminal.
    pub fn text(&self) -> (r: String)
        ensures
            r@ == self@.text(),
    {
        match self {
            Notice::TaskFailed { name: None, error } => {
                let m = error.message();
                concat2("\n\x1b[31mTask failed:\x1b[0m ", m.as_str())
            },
            Notice::TaskFailed { name: Some(n), error } => {
                let m = error.message();
                let mut r = concat3("\n\x1b[31mTask failed:\x1b[0m ", n.as_str(), ": ");
                r.append(m.as_str());
                r
            },
            Notice::RunningHook(c) => concat2("Running fail hook: ", c.as_str()),
            Notice::Warning(m) => concat2("⚠️  ", m.as_str()),
            Notice::Suggestion(c) => concat3(
                "\x1b[33mSuggestion:\x1b[0m try running \x1b[1m",
                c.as_str(),
                "\x1b[0m",
            ),
            Notice::FixFailed => "\x1b[31mFix command failed.\x1b[0m".to_owned(),
            Notice::Summary(m) => {
                let mut parts: Vec<String> = Vec::new();
                let mut i: usize = 0;
                while i < m.len()
                    invariant
                        i <= m.len(),
                        parts@.len() == i,
                        forall|j: int| 0 <= j < i ==> parts@[j]@ == mark_text(marks(m@)[j]),
                    decreases m.len() - i,
                {
                    let part = if m[i].1 {
                        concat3("\x1b[32m✓ ", m[i].0.as_str(), "\x1b[0m")
                    } else {
                        concat3("\x1b[31m✗ ", m[i].0.as_str(), "\x1b[0m")
                    };
                    parts.push(part);
                    i += 1;
                }
                assert(texts(parts@) =~= mark_texts(marks(m@)));
                let mut r = "\nRan ".to_owned();
                push_digits(&mut r, m.len() as u64);
                r.append(" tasks: ");
                let list = crate::text::join(&parts, "  ");
                r.append(list.as_str());
                r
            },
        }
    }
}

impl Question {
    /// The question in words.
    pub fn text(&self) -> (r: String)
        ensures
            r@ == self@.text(),
    {
        match self {
            Question::RunFix(c) => concat3("Run `", c.as_str(), "`?"),
            Question::ContinueNext => "Continue to next task?".to_owned(),
        }
    }
}

impl Request {
    /// The line that announces a command, for the requests that run one.
    pub fn echo(&self) -> (r: Option<String>)
        ensures
            crate::text::opt_text(r) == self@.echo(),
    {
        match self {
            Request::Shell { command, dir } => Some(concat2("→ ", command.as_str())),
            Request::Spawn { command, dir } => Some(concat3("→ ", command.as_str(), " &")),
            _ => None,
        }
    }
}

} // verus!
