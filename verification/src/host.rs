//! What the interpreter asks of the program around it, and what that
//! program answers.
//!
//! The interpreter spawns no process and opens no file. It says what has to
//! be done, one [`Action`] at a time, and is told how it went by a
//! [`Reply`]. The program around it, the host, keeps what cannot leave it:
//! the files that it opened for the next process, and the output and error
//! handles of the process that it spawned last.

use vstd::prelude::*;

verus! {

/// Where a process takes its input from.
#[derive(Debug, PartialEq, Eq, Clone, Copy, Structural)]
pub enum Source {
    /// The input of the shell itself.
    Inherit,
    /// The null device.
    Null,
    /// The output handle that the host holds: it goes to the new process and
    /// the host holds it no more.
    Held,
    /// The file that the host opened for this process.
    File,
}

/// Where the output or the error stream of a process goes to.
#[derive(Debug, PartialEq, Eq, Clone, Copy, Structural)]
pub enum Sink {
    /// A pipe whose reading end the host holds once the process is spawned.
    Piped,
    /// The null device.
    Null,
    /// The file that the host created for this stream of this process.
    File,
}

/// How spawning a process went.
#[derive(Debug, PartialEq, Eq)]
pub enum Outcome {
    /// The process ran and ended; whether it ended with success.
    Exited(bool),
    /// The process was spawned, and waiting for it failed.
    NotRunning,
    /// The process could not be spawned; the message of the system.
    Failed(String),
}

/// The mathematical value of an [`Outcome`].
pub ghost enum OutcomeView {
    Exited(bool),
    NotRunning,
    Failed(Seq<char>),
}

impl View for Outcome {
    type V = OutcomeView;

    open spec fn view(&self) -> OutcomeView {
        match self {
            Outcome::Exited(success) => OutcomeView::Exited(*success),
            Outcome::NotRunning => OutcomeView::NotRunning,
            Outcome::Failed(message) => OutcomeView::Failed(message@),
        }
    }
}

/// One thing that the interpreter asks for.
#[derive(Debug, PartialEq, Eq)]
pub enum Action {
    /// Say whether the path names a directory. The interpreter answers this
    /// itself and never hands it out.
    IsDirectory(String),
    /// Say whether the path names a file. The interpreter answers this
    /// itself and never hands it out.
    IsFile(String),
    /// Drop the error handle, the output handle or both, unread.
    Release { error: bool, output: bool },
    /// Make the directory the working directory.
    ChangeDirectory(String),
    /// Give the variable of the session this value.
    SetVariable(String, String),
    /// Clear the screen.
    Clear,
    /// End the session with success. Nothing answers this.
    Exit,
    /// Open the file for reading, as the input of the next process.
    OpenInput(String),
    /// Create the file, or empty it, for the output of the next process.
    CreateOutput(String),
    /// Create the file, or empty it, for the error stream of the next
    /// process.
    CreateError(String),
    /// Spawn the program with these arguments and streams and wait for it
    /// to end. If it is spawned, the host then holds the reading ends of its
    /// piped streams in place of what it held.
    Spawn { program: String, arguments: Vec<String>, stdin: Source, stdout: Sink, stderr: Sink },
    /// Read the error handle, the output handle or both to the end, and hold
    /// them no more.
    Drain { error: bool, output: bool },
    /// The evaluation is over: the lines of errors and the lines of output
    /// that it produced. Nothing answers this.
    Finish { errors: Vec<String>, outputs: Vec<String> },
}

/// The mathematical value of an [`Action`].
pub ghost enum ActionView {
    IsDirectory(Seq<char>),
    IsFile(Seq<char>),
    Release { error: bool, output: bool },
    ChangeDirectory(Seq<char>),
    SetVariable(Seq<char>, Seq<char>),
    Clear,
    Exit,
    OpenInput(Seq<char>),
    CreateOutput(Seq<char>),
    CreateError(Seq<char>),
    Spawn {
        program: Seq<char>,
        arguments: Seq<Seq<char>>,
        stdin: Source,
        stdout: Sink,
        stderr: Sink,
    },
    Drain { error: bool, output: bool },
    Finish { errors: Seq<Seq<char>>, outputs: Seq<Seq<char>> },
}

impl View for Action {
    type V = ActionView;

    open spec fn view(&self) -> ActionView {
        match self {
            Action::IsDirectory(path) => ActionView::IsDirectory(path@),
            Action::IsFile(path) => ActionView::IsFile(path@),
            Action::Release { error, output } => ActionView::Release {
                error: *error,
                output: *output,
            },
            Action::ChangeDirectory(path) => ActionView::ChangeDirectory(path@),
            Action::SetVariable(key, value) => ActionView::SetVariable(key@, value@),
            Action::Clear => ActionView::Clear,
            Action::Exit => ActionView::Exit,
            Action::OpenInput(path) => ActionView::OpenInput(path@),
            Action::CreateOutput(path) => ActionView::CreateOutput(path@),
            Action::CreateError(path) => ActionView::CreateError(path@),
            Action::Spawn { program, arguments, stdin, stdout, stderr } => ActionView::Spawn {
                program: program@,
                arguments: arguments.deep_view(),
                stdin: *stdin,
                stdout: *stdout,
                stderr: *stderr,
            },
            Action::Drain { error, output } => ActionView::Drain { error: *error, output: *output },
            Action::Finish { errors, outputs } => ActionView::Finish {
                errors: errors.deep_view(),
                outputs: outputs.deep_view(),
            },
        }
    }
}

impl ActionView {
    /// Whether the interpreter answers the action itself, from the file
    /// system.
    pub open spec fn is_probe(self) -> bool {
        self is IsDirectory || self is IsFile
    }
}

/// The answer to an [`Action`].
#[derive(Debug, PartialEq, Eq)]
pub enum Reply {
    /// To `IsDirectory` and `IsFile`: whether the path names one.
    Found(bool),
    /// To `Release`, `ChangeDirectory`, `SetVariable`, `Clear`, `OpenInput`,
    /// `CreateOutput` and `CreateError`: whether it was done.
    Done(bool),
    /// To `Spawn`: how it went.
    Spawned(Outcome),
    /// To `Drain`: what was read from the error handle and from the output
    /// handle; the empty text for a handle that was not to be read.
    Drained { error: String, output: String },
}

/// The mathematical value of a [`Reply`].
pub ghost enum ReplyView {
    Found(bool),
    Done(bool),
    Spawned(OutcomeView),
    Drained { error: Seq<char>, output: Seq<char> },
}

impl View for Reply {
    type V = ReplyView;

    open spec fn view(&self) -> ReplyView {
        match self {
            Reply::Found(found) => ReplyView::Found(*found),
            Reply::Done(done) => ReplyView::Done(*done),
            Reply::Spawned(outcome) => ReplyView::Spawned(outcome@),
            Reply::Drained { error, output } => ReplyView::Drained {
                error: error@,
                output: output@,
            },
        }
    }
}

impl DeepView for Reply {
    type V = ReplyView;

    open spec fn deep_view(&self) -> ReplyView {
        self@
    }
}

/// Whether `reply` is an answer to `action`.
pub open spec fn fits(action: ActionView, reply: ReplyView) -> bool {
    match action {
        ActionView::IsDirectory(_) | ActionView::IsFile(_) => reply is Found,
        ActionView::Release { .. }
        | ActionView::ChangeDirectory(_)
        | ActionView::SetVariable(_, _)
        | ActionView::Clear
        | ActionView::OpenInput(_)
        | ActionView::CreateOutput(_)
        | ActionView::CreateError(_) => reply is Done,
        ActionView::Spawn { .. } => reply is Spawned,
        ActionView::Drain { .. } => reply is Drained,
        ActionView::Exit | ActionView::Finish { .. } => false,
    }
}

impl Action {
    /// Whether `reply` is an answer to this action.
    pub fn accepts(&self, reply: &Reply) -> (yes: bool)
        ensures
            yes == fits(self@, reply@),
    {
        match self {
            Action::IsDirectory(_) | Action::IsFile(_) => match reply {
                Reply::Found(_) => true,
                _ => false,
            },
            Action::Release { .. }
            | Action::ChangeDirectory(_)
            | Action::SetVariable(_, _)
            | Action::Clear
            | Action::OpenInput(_)
            | Action::CreateOutput(_)
            | Action::CreateError(_) => match reply {
                Reply::Done(_) => true,
                _ => false,
            },
            Action::Spawn { .. } => match reply {
                Reply::Spawned(_) => true,
                _ => false,
            },
            Action::Drain { .. } => match reply {
                Reply::Drained { .. } => true,
                _ => false,
            },
            Action::Exit | Action::Finish { .. } => false,
        }
    }
}

} // verus!
