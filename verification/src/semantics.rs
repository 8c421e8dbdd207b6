//! What evaluating an expression means.
//!
//! An evaluation is a walk over the expression tree. Where the walk needs
//! something done outside, it asks for it with an action and goes on with
//! the reply. The replies that have come so far are kept in a log, in their
//! order, and the walk is a function of the tree and the log: it takes the
//! replies one by one, each where it asked for it, and stops at the first
//! action for which the log holds no reply. That action is what has to be
//! done next.
//!
//! Whether a process succeeded is what its exit status says; a process
//! that could not be spawned or waited for has not succeeded. The operators
//! that ask whether a side has succeeded look at the success flag that the
//! side itself has left, never at one that was there before. What is read
//! from a handle becomes one line of the result: the text without the white
//! space around it, with the line breaks inside it as they are; an empty
//! text leaves no line. What a process writes to its error stream is
//! recorded before the next process of a pipeline is spawned. A process
//! whose upstream neighbour could not be spawned runs all the same, with the
//! null device as its input.

use vstd::prelude::*;
use crate::ast::{ExprView, Operator, RedirectView};
use crate::host::{fits, ActionView, OutcomeView, ReplyView, Sink, Source};
use crate::text::{alphabetic, decimal, trimmed};
use crate::utils::program_path_of;

verus! {

/// The state of an evaluation.
pub ghost struct RunView {
    /// The number of replies that have been taken from the log.
    pub used: int,
    /// Whether the host holds the output handle of the process that was
    /// spawned last.
    pub held_output: bool,
    /// Whether the host holds the error handle of the process that was
    /// spawned last.
    pub held_error: bool,
    /// Whether the next process takes its input from the held output handle.
    pub piped: bool,
    /// The success flags that have not been consumed, the newest last.
    pub flags: Seq<bool>,
    /// The lines of errors so far.
    pub errors: Seq<Seq<char>>,
    /// The lines of output so far.
    pub outputs: Seq<Seq<char>>,
}

/// An evaluation that cannot go on without a reply: the action that it asks
/// for and the number of replies that it has taken.
pub ghost struct Pause {
    pub action: ActionView,
    pub used: int,
}

/// A step of an evaluation gives a value, or pauses.
pub type Progress<T> = Result<T, Pause>;

impl RunView {
    /// The state in which every evaluation starts.
    pub open spec fn start() -> RunView {
        RunView {
            used: 0,
            held_output: false,
            held_error: false,
            piped: false,
            flags: Seq::empty(),
            errors: Seq::empty(),
            outputs: Seq::empty(),
        }
    }

    /// The state with one more line of errors: `message` without the white
    /// space around it.
    pub open spec fn fail(self, message: Seq<char>) -> RunView {
        RunView { errors: self.errors.push(trimmed(message)), ..self }
    }

    /// Whether what was evaluated since there were `depth` success flags
    /// has succeeded: it has left a flag of its own, and the newest flag is
    /// true. Flags that were there before do not count.
    pub open spec fn succeeded(self, depth: nat) -> bool {
        self.flags.len() > depth && self.flags.last()
    }

    /// The state without the newest success flag that was left since there
    /// were `depth` flags, if one was left.
    pub open spec fn without_flag(self, depth: nat) -> RunView {
        if self.flags.len() > depth {
            RunView { flags: self.flags.drop_last(), ..self }
        } else {
            self
        }
    }

    /// The state with one more success flag.
    pub open spec fn with_flag(self, flag: bool) -> RunView {
        RunView { flags: self.flags.push(flag), ..self }
    }

    /// The state after the host has read the handles that `error` and
    /// `output` name and has answered `reply`: what it read is recorded,
    /// unless it is empty, and the handles are held no more.
    pub open spec fn drained(self, error: bool, output: bool, reply: ReplyView) -> RunView {
        match reply {
            ReplyView::Drained { error: error_text, output: output_text } => RunView {
                held_error: self.held_error && !error,
                held_output: self.held_output && !output,
                errors: if error && error_text.len() > 0 {
                    self.errors.push(trimmed(error_text))
                } else {
                    self.errors
                },
                outputs: if output && output_text.len() > 0 {
                    self.outputs.push(trimmed(output_text))
                } else {
                    self.outputs
                },
                ..self
            },
            _ => self,
        }
    }

    /// The state after a process was asked for with these sinks and the host
    /// has answered `outcome`. A process that ran leaves what its exit status
    /// says as its success flag. One that could not be waited for, or could
    /// not be spawned, has not succeeded: it leaves the flag false and a line
    /// of errors, for a failed spawn with the path of the program. A process
    /// that was spawned leaves the handles of its piped streams with the
    /// host.
    pub open spec fn spawned(self, path: Seq<char>, stdout: Sink, stderr: Sink, outcome: OutcomeView)
        -> RunView {
        match outcome {
            OutcomeView::Exited(success) => RunView {
                held_error: stderr == Sink::Piped,
                held_output: stdout == Sink::Piped,
                ..self.with_flag(success)
            },
            OutcomeView::NotRunning => RunView {
                held_error: stderr == Sink::Piped,
                held_output: stdout == Sink::Piped,
                ..self.fail("Command was not running"@).with_flag(false)
            },
            OutcomeView::Failed(message) => self.fail(message + "\r\n"@ + path).with_flag(false),
        }
    }
}

/// What a reply of yes or no says; no for any other reply.
pub open spec fn said_yes(reply: ReplyView) -> bool {
    match reply {
        ReplyView::Found(yes) => yes,
        ReplyView::Done(yes) => yes,
        _ => false,
    }
}

/// Asks for `action`: the next reply of the log, if there is one and it is
/// an answer to the action, with the state in which it is taken. Otherwise
/// the evaluation pauses at the action.
pub open spec fn ask(log: Seq<ReplyView>, st: RunView, action: ActionView) -> Progress<
    (ReplyView, RunView),
> {
    if 0 <= st.used < log.len() && fits(action, log[st.used]) {
        Ok((log[st.used], RunView { used: st.used + 1, ..st }))
    } else {
        Err(Pause { action, used: st.used })
    }
}

/// Has the host read those of the error handle and the output handle that
/// are named and held. What was read is recorded.
pub open spec fn drain(log: Seq<ReplyView>, st: RunView, error: bool, output: bool) -> Progress<
    RunView,
> {
    let error = error && st.held_error;
    let output = output && st.held_output;
    if !error && !output {
        Ok(st)
    } else {
        match ask(log, st, ActionView::Drain { error, output }) {
            Err(pause) => Err(pause),
            Ok((reply, taken)) => Ok(taken.drained(error, output, reply)),
        }
    }
}

/// Has the host drop those of the error handle and the output handle that
/// are named and held.
pub open spec fn release(log: Seq<ReplyView>, st: RunView, error: bool, output: bool) -> Progress<
    RunView,
> {
    let error = error && st.held_error;
    let output = output && st.held_output;
    if !error && !output {
        Ok(st)
    } else {
        match ask(log, st, ActionView::Release { error, output }) {
            Err(pause) => Err(pause),
            Ok((_, taken)) => Ok(
                RunView {
                    held_error: taken.held_error && !error,
                    held_output: taken.held_output && !output,
                    ..taken
                },
            ),
        }
    }
}

/// `cd`: the last argument becomes the working directory. What the host
/// holds of the process before is dropped, so that a pipe into `cd` has no
/// effect. A missing argument, a path that is no directory and a change
/// that the system refuses leave a line of errors each.
pub open spec fn change_directory(log: Seq<ReplyView>, st: RunView, arguments: Seq<Seq<char>>)
    -> Progress<RunView> {
    match release(log, st, true, true) {
        Err(pause) => Err(pause),
        Ok(st) => if arguments.len() == 0 {
            Ok(st.fail("Cd has no argument"@))
        } else {
            let directory = arguments.last();
            match ask(log, st, ActionView::IsDirectory(directory)) {
                Err(pause) => Err(pause),
                Ok((found, st)) => if !said_yes(found) {
                    Ok(st.fail(directory + " is not a valid directory"@))
                } else {
                    match ask(log, st, ActionView::ChangeDirectory(directory)) {
                        Err(pause) => Err(pause),
                        Ok((done, st)) => if said_yes(done) {
                            Ok(st)
                        } else {
                            Ok(st.fail("Could not set working directory"@))
                        },
                    }
                },
            }
        },
    }
}

/// Whether `key` can be the name of a variable: it is not empty and holds
/// letters and underscores only.
pub open spec fn valid_key(key: Seq<char>) -> bool {
    key.len() > 0 && forall|i: int| 0 <= i < key.len() ==> alphabetic(#[trigger] key[i]) || key[i]
        == '_'
}

/// The `words` with a blank between each two of them.
pub open spec fn joined_words(words: Seq<Seq<char>>) -> Seq<char>
    decreases words.len(),
{
    if words.len() == 0 {
        Seq::empty()
    } else if words.len() == 1 {
        words[0]
    } else {
        joined_words(words.drop_last()) + " "@ + words.last()
    }
}

/// `set`: the variable that the first argument names gets the other
/// arguments, joined by blanks, as its value. Fewer than two arguments and a
/// name that is not valid leave a line of errors each.
pub open spec fn set_variable(log: Seq<ReplyView>, st: RunView, arguments: Seq<Seq<char>>)
    -> Progress<RunView> {
    if arguments.len() < 2 {
        Ok(st.fail("Expected at least 2 arguments but found "@ + decimal(arguments.len())))
    } else if !valid_key(arguments[0]) {
        Ok(
            st.fail(
                "An environment variable can only contain alphabetic characters or _ but found "@
                    + arguments[0],
            ),
        )
    } else {
        match ask(
            log,
            st,
            ActionView::SetVariable(arguments[0], joined_words(arguments.skip(1))),
        ) {
            Err(pause) => Err(pause),
            Ok((_, st)) => Ok(st),
        }
    }
}

/// The input of a process before its redirection is looked at: in a
/// pipeline, the held output handle or, if none is held, the null device;
/// otherwise the input of the shell. The state is the one in which the
/// output handle, if it was held, belongs to the process.
pub open spec fn piped_input(st: RunView) -> (Source, RunView) {
    if st.piped {
        (
            if st.held_output {
                Source::Held
            } else {
                Source::Null
            },
            RunView { held_output: false, ..st },
        )
    } else {
        (Source::Inherit, st)
    }
}

/// Gives up the output handle that was to be the input of a process, if
/// there is one, because a redirection takes its place.
pub open spec fn give_up(log: Seq<ReplyView>, st: RunView, input: Source) -> Progress<RunView> {
    if input == Source::Held {
        match ask(log, st, ActionView::Release { error: false, output: true }) {
            Err(pause) => Err(pause),
            Ok((_, st)) => Ok(st),
        }
    } else {
        Ok(st)
    }
}

/// The name of the null device.
pub open spec fn null_device() -> Seq<char> {
    "/dev/null"@
}

/// The input of a process, given what it is without a redirection. A
/// redirection takes the place of the input of a pipeline: the null device
/// for its name and for a file that does not exist, which leaves a line of
/// errors, and else the file, unless it cannot be opened, which leaves a line
/// of errors and the input as it was.
pub open spec fn choose_input(
    log: Seq<ReplyView>,
    st: RunView,
    input: Source,
    file: Option<Seq<char>>,
) -> Progress<(Source, RunView)> {
    match file {
        None => Ok((input, st)),
        Some(file) => if file == null_device() {
            match give_up(log, st, input) {
                Err(pause) => Err(pause),
                Ok(st) => Ok((Source::Null, st)),
            }
        } else {
            match ask(log, st, ActionView::IsFile(file)) {
                Err(pause) => Err(pause),
                Ok((found, st)) => if !said_yes(found) {
                    match give_up(log, st.fail("File does not exist: "@ + file), input) {
                        Err(pause) => Err(pause),
                        Ok(st) => Ok((Source::Null, st)),
                    }
                } else {
                    match ask(log, st, ActionView::OpenInput(file)) {
                        Err(pause) => Err(pause),
                        Ok((opened, st)) => if said_yes(opened) {
                            match give_up(log, st, input) {
                                Err(pause) => Err(pause),
                                Ok(st) => Ok((Source::File, st)),
                            }
                        } else {
                            Ok((input, st.fail("Could not read file: "@ + file)))
                        },
                    }
                },
            }
        },
    }
}

/// Where the output stream, or the error stream if `error` is true, of a
/// process goes: into a pipe without a redirection, to the null device for
/// its name, and else to the file, unless it cannot be created, which leaves
/// a line of errors and the pipe.
pub open spec fn choose_sink(
    log: Seq<ReplyView>,
    st: RunView,
    error: bool,
    file: Option<Seq<char>>,
) -> Progress<(Sink, RunView)> {
    match file {
        None => Ok((Sink::Piped, st)),
        Some(file) => if file == null_device() {
            Ok((Sink::Null, st))
        } else {
            let action = if error {
                ActionView::CreateError(file)
            } else {
                ActionView::CreateOutput(file)
            };
            match ask(log, st, action) {
                Err(pause) => Err(pause),
                Ok((created, st)) => if said_yes(created) {
                    Ok((Sink::File, st))
                } else {
                    Ok((Sink::Piped, st.fail("Could not create file: "@ + file)))
                },
            }
        },
    }
}

/// A program: its streams are chosen, then it is spawned from the
/// directory of programs and waited for.
pub open spec fn execute_command(
    dir: Seq<char>,
    log: Seq<ReplyView>,
    st: RunView,
    name: Seq<char>,
    arguments: Seq<Seq<char>>,
    redirect: RedirectView,
) -> Progress<RunView> {
    let program = program_path_of(dir, name);
    let (input, st) = piped_input(st);
    match choose_input(log, st, input, redirect.stdin) {
        Err(pause) => Err(pause),
        Ok((stdin, st)) => match choose_sink(log, st, false, redirect.stdout) {
            Err(pause) => Err(pause),
            Ok((stdout, st)) => match choose_sink(log, st, true, redirect.stderr) {
                Err(pause) => Err(pause),
                Ok((stderr, st)) => match ask(
                    log,
                    st,
                    ActionView::Spawn { program, arguments, stdin, stdout, stderr },
                ) {
                    Err(pause) => Err(pause),
                    Ok((ReplyView::Spawned(outcome), st)) => Ok(
                        st.spawned(program, stdout, stderr, outcome),
                    ),
                    Ok((_, st)) => Ok(st),
                },
            },
        },
    }
}

/// A command: one of those that the shell runs itself, or a program.
pub open spec fn execute(
    dir: Seq<char>,
    log: Seq<ReplyView>,
    st: RunView,
    name: Seq<char>,
    arguments: Seq<Seq<char>>,
    redirect: RedirectView,
) -> Progress<RunView> {
    if name == "cd"@ {
        change_directory(log, st, arguments)
    } else if name == "exit"@ {
        Err(Pause { action: ActionView::Exit, used: st.used })
    } else if name == "set"@ {
        set_variable(log, st, arguments)
    } else if name == "clear"@ {
        match ask(log, st, ActionView::Clear) {
            Err(pause) => Err(pause),
            Ok((_, st)) => Ok(st),
        }
    } else {
        execute_command(dir, log, st, name, arguments, redirect)
    }
}

/// What `&&` and `||` make of the success of their two sides.
pub open spec fn combine(op: Operator, left: bool, right: bool) -> bool {
    match op {
        Operator::LogicAnd => left && right,
        Operator::LogicOr => left || right,
        _ => right,
    }
}

/// An expression followed by the reading of what its last process wrote.
pub open spec fn eval_drained(dir: Seq<char>, log: Seq<ReplyView>, st: RunView, node: ExprView)
    -> Progress<RunView>
    decreases node, 1nat,
{
    match eval_expr(dir, log, st, node) {
        Err(pause) => Err(pause),
        Ok(st) => drain(log, st, true, true),
    }
}

/// The evaluation of an expression.
///
/// - `|`: the left side; what its last process wrote to its error stream is
///   read; then the right side in pipe mode, which ends with it.
/// - `;`: the left side, then the right side, each with what it wrote read
///   after it.
/// - `&`: the left side; the right side only if the left side has
///   succeeded.
/// - `&&`, `||`: both sides, each giving up its success flag; the flag of
///   the whole is made of the two.
/// - `if`: the condition, which gives up its success flag; then the branch
///   that the flag selects, if there is one.
///
/// A side has succeeded if it has left a success flag and the newest one is
/// true: the flags that were there before the side was evaluated are not
/// looked at. So a side that runs no process, or whose last process could
/// not be spawned or did not succeed, has not succeeded.
pub open spec fn eval_expr(dir: Seq<char>, log: Seq<ReplyView>, st: RunView, node: ExprView)
    -> Progress<RunView>
    decreases node, 0nat,
{
    match node {
        ExprView::Cmd { name, arguments, redirect } => execute(
            dir,
            log,
            st,
            name,
            arguments,
            redirect,
        ),
        ExprView::Binary(left, Operator::Pipe, right) => match eval_expr(dir, log, st, *left) {
            Err(pause) => Err(pause),
            Ok(st) => match drain(log, st, true, false) {
                Err(pause) => Err(pause),
                Ok(st) => match eval_expr(dir, log, RunView { piped: true, ..st }, *right) {
                    Err(pause) => Err(pause),
                    Ok(st) => Ok(RunView { piped: false, ..st }),
                },
            },
        },
        ExprView::Binary(left, Operator::Next, right) => match eval_drained(dir, log, st, *left) {
            Err(pause) => Err(pause),
            Ok(st) => eval_drained(dir, log, st, *right),
        },
        ExprView::Binary(left, Operator::NextIfSuccess, right) => match eval_drained(
            dir,
            log,
            st,
            *left,
        ) {
            Err(pause) => Err(pause),
            Ok(after_left) => if after_left.succeeded(st.flags.len()) {
                eval_drained(dir, log, after_left, *right)
            } else {
                Ok(after_left)
            },
        },
        ExprView::Binary(left, op, right) => match eval_drained(dir, log, st, *left) {
            Err(pause) => Err(pause),
            Ok(after_left) => {
                let between = after_left.without_flag(st.flags.len());
                match eval_drained(dir, log, between, *right) {
                    Err(pause) => Err(pause),
                    Ok(after_right) => Ok(
                        after_right.without_flag(between.flags.len()).with_flag(
                            combine(
                                op,
                                after_left.succeeded(st.flags.len()),
                                after_right.succeeded(between.flags.len()),
                            ),
                        ),
                    ),
                }
            },
        },
        ExprView::If(condition, then) => match eval_drained(dir, log, st, *condition) {
            Err(pause) => Err(pause),
            Ok(decided) => if decided.succeeded(st.flags.len()) {
                eval_expr(dir, log, decided.without_flag(st.flags.len()), *then)
            } else {
                Ok(decided.without_flag(st.flags.len()))
            },
        },
        ExprView::IfElse(condition, then, otherwise) => match eval_drained(
            dir,
            log,
            st,
            *condition,
        ) {
            Err(pause) => Err(pause),
            Ok(decided) => if decided.succeeded(st.flags.len()) {
                eval_expr(dir, log, decided.without_flag(st.flags.len()), *then)
            } else {
                eval_expr(dir, log, decided.without_flag(st.flags.len()), *otherwise)
            },
        },
    }
}

/// Where the evaluation of `ast` stands with the replies of `log`: the
/// action that it asks for next, and the number of replies that it has
/// taken. An evaluation that is over asks to finish, with the lines of
/// errors and of output that it has produced.
pub open spec fn outcome(dir: Seq<char>, log: Seq<ReplyView>, ast: ExprView) -> Pause {
    match eval_drained(dir, log, RunView::start(), ast) {
        Err(pause) => pause,
        Ok(st) => Pause {
            action: ActionView::Finish { errors: st.errors, outputs: st.outputs },
            used: st.used,
        },
    }
}

} // verus!
