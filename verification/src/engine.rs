//! The execution engine: a machine that decides, step by step, what a run
//! of a task does next.
//!
//! The machine never touches a process or a terminal itself. Each step
//! hands its host a request, such as a command to run or a question to ask,
//! and the host answers with the event that came of it. The state of a run
//! is a stack of frames, one for each task that has been entered and not
//! left; the frame on top is the one at work.
//!
//! References are followed as they are met, and nothing keeps track of
//! where a run has been. A chain of references that leads back to a task
//! it came from is therefore entered again and again, and such a run
//! never ends; every other run does.

pub mod laws;
pub mod machine;
pub mod model;
pub mod progress;
pub mod report;
pub mod shell;

pub use machine::{Frame, lookup_task_for_failure, Run, Step};
pub use model::{
    advance, Child, Event, Failure, MARKER, MARKER_VALUE, Notice, Outcome, Question, Request,
    RunView, SHELL, Stage, start,
};
