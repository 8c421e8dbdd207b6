//! The interpreter: it evaluates an expression tree by asking the host for
//! one action after the other.

use vstd::prelude::*;
use crate::ast::{Expr, Operator, Redirect};
use crate::host::{fits, Action, Outcome, Reply, ReplyView, Sink, Source};
use crate::semantics::{
    ask,
    change_directory,
    choose_input,
    choose_sink,
    combine,
    drain,
    eval_drained,
    eval_expr,
    execute,
    execute_command,
    give_up,
    joined_words,
    outcome,
    piped_input,
    release,
    said_yes,
    set_variable,
    valid_key,
    Progress,
    RunView,
};
use crate::replay::{
    budget,
    lemma_outcome_bounded,
    lemma_reply_taken,
    lemma_rest_unused,
    probed,
};
use crate::text::{alphabetic, chars_of, decimal_of, is_alphabetic, string_of, trim, trimmed};
use crate::utils::{is_dir, is_file, program_path};

verus! {

/// The state of one walk over the tree.
struct Run {
    used: usize,
    held_output: bool,
    held_error: bool,
    piped: bool,
    flags: Vec<bool>,
    errors: Vec<String>,
    outputs: Vec<String>,
}

impl View for Run {
    type V = RunView;

    closed spec fn view(&self) -> RunView {
        RunView {
            used: self.used as int,
            held_output: self.held_output,
            held_error: self.held_error,
            piped: self.piped,
            flags: self.flags@,
            errors: self.errors.deep_view(),
            outputs: self.outputs.deep_view(),
        }
    }
}

/// Whether a step that left the state `after` and gave `result` did what
/// `expected` says.
spec fn done<T>(result: Result<T, Action>, after: RunView, expected: Progress<(T, RunView)>)
    -> bool {
    match expected {
        Ok((value, st)) => result == Ok::<T, Action>(value) && after == st,
        Err(pause) => result matches Err(action) && action@ == pause.action && after.used
            == pause.used,
    }
}

/// Whether a step that left the state `after` and gave `result` did what
/// `expected` says.
spec fn gone(result: Result<(), Action>, after: RunView, expected: Progress<RunView>) -> bool {
    match expected {
        Ok(st) => result is Ok && after == st,
        Err(pause) => result matches Err(action) && action@ == pause.action && after.used
            == pause.used,
    }
}

impl Run {
    fn start() -> (run: Run)
        ensures
            run@ == RunView::start(),
    {
        let run = Run {
            used: 0,
            held_output: false,
            held_error: false,
            piped: false,
            flags: Vec::new(),
            errors: Vec::new(),
            outputs: Vec::new(),
        };
        assert(run.outputs.deep_view() == Seq::<Seq<char>>::empty());
        run
    }

    /// Records a line of errors.
    fn push_error_result(&mut self, buffer: String)
        ensures
            final(self)@ == old(self)@.fail(buffer@),
    {
        let ghost before = self.errors.deep_view();
        let line = trim(buffer.as_str());
        self.errors.push(line);
        assert(self.errors.deep_view() == before.push(line@));
    }

    /// Records a line of output.
    fn push_output_result(&mut self, buffer: String)
        ensures
            final(self)@ == (RunView {
                outputs: old(self)@.outputs.push(trimmed(buffer@)),
                ..old(self)@
            }),
    {
        let ghost before = self.outputs.deep_view();
        let line = trim(buffer.as_str());
        self.outputs.push(line);
        assert(self.outputs.deep_view() == before.push(line@));
    }

    /// The number of success flags.
    fn depth(&self) -> (depth: usize)
        ensures
            depth == self@.flags.len(),
    {
        self.flags.len()
    }

    /// Takes the newest success flag that was left since there were `depth`
    /// flags; false if none was left.
    fn pop_flag(&mut self, depth: usize) -> (flag: bool)
        ensures
            flag == old(self)@.succeeded(depth as nat),
            final(self)@ == old(self)@.without_flag(depth as nat),
    {
        if self.flags.len() > depth {
            match self.flags.pop() {
                Some(flag) => flag,
                None => false,
            }
        } else {
            false
        }
    }

    /// The newest success flag that was left since there were `depth`
    /// flags; false if none was left.
    fn last_flag(&self, depth: usize) -> (flag: bool)
        ensures
            flag == self@.succeeded(depth as nat),
    {
        let n = self.flags.len();
        n > depth && self.flags[n - 1]
    }
}

/// A copy of `texts`.
fn copy_texts(texts: &Vec<String>) -> (copy: Vec<String>)
    ensures
        copy.deep_view() == texts.deep_view(),
{
    let mut copy: Vec<String> = Vec::new();
    let mut i: usize = 0;
    while i < texts.len()
        invariant
            i <= texts.len(),
            copy.deep_view() == texts.deep_view().take(i as int),
        decreases texts.len() - i,
    {
        let ghost before = copy.deep_view();
        copy.push(texts[i].clone());
        assert(copy.deep_view() == before.push(texts[i as int]@));
        i += 1;
    }
    copy
}

/// Whether `key` can be the name of a variable.
fn is_valid_key(key: &String) -> (valid: bool)
    ensures
        valid == valid_key(key@),
{
    let chars = chars_of(key.as_str());
    if chars.len() == 0 {
        return false;
    }
    let mut i: usize = 0;
    while i < chars.len()
        invariant
            i <= chars.len(),
            chars@ == key@,
            forall|j: int| 0 <= j < i ==> alphabetic(#[trigger] key@[j]) || key@[j] == '_',
        decreases chars.len() - i,
    {
        let c = chars[i];
        if !(is_alphabetic(c) || c == '_') {
            return false;
        }
        i += 1;
    }
    true
}

/// The texts from the second on, with a blank between each two of them.
fn join_rest(texts: &Vec<String>) -> (joined: String)
    requires
        texts.len() >= 1,
    ensures
        joined@ == joined_words(texts.deep_view().skip(1)),
{
    let ghost words = texts.deep_view().skip(1);
    let mut joined = String::new();
    let mut i: usize = 1;
    while i < texts.len()
        invariant
            1 <= i <= texts.len(),
            words == texts.deep_view().skip(1),
            joined@ == joined_words(words.take(i - 1)),
        decreases texts.len() - i,
    {
        if i > 1 {
            joined.append(" ");
        }
        joined.append(texts[i].as_str());
        proof {
            let now = words.take(i as int);
            assert(now.drop_last() == words.take(i - 1));
        }
        i += 1;
    }
    assert(words.take(texts.len() - 1) == words);
    joined
}

/// `text` followed by `tail`.
fn message(text: &str, tail: &str) -> (whole: String)
    ensures
        whole@ == text@ + tail@,
{
    let mut whole = String::from_str(text);
    whole.append(tail);
    whole
}

/// Evaluates expression trees. The interpreter keeps the directory of
/// programs for the whole session, and the replies of the host for the
/// evaluation that is under way.
pub struct Interpreter {
    program_dir: String,
    log: Vec<Reply>,
}

impl Interpreter {
    /// The directory in which programs are looked for.
    pub closed spec fn directory(&self) -> Seq<char> {
        self.program_dir@
    }

    /// The replies that the evaluation under way has received, in their
    /// order.
    pub closed spec fn replies(&self) -> Seq<ReplyView> {
        self.log.deep_view()
    }

    /// An interpreter that looks for programs in `program_path`.
    pub fn new(program_path: &str) -> (interpreter: Interpreter)
        ensures
            interpreter.directory() == program_path@,
            interpreter.replies().len() == 0,
    {
        Interpreter { program_dir: String::from_str(program_path), log: Vec::new() }
    }

    /// Asks for `action`: takes the next reply if it is an answer to it.
    fn ask(&self, run: &mut Run, action: Action) -> (result: Result<&Reply, Action>)
        ensures
            match ask(self.replies(), old(run)@, action@) {
                Ok((reply, st)) => result matches Ok(r) && r@ == reply && final(run)@ == st,
                Err(pause) => result matches Err(a) && a@ == pause.action && final(run)@ == old(
                    run,
                )@,
            },
    {
        if run.used < self.log.len() {
            let reply = &self.log[run.used];
            if action.accepts(reply) {
                run.used += 1;
                return Ok(reply);
            }
        }
        Err(action)
    }

    /// Asks for `action`, which is answered with yes or no.
    fn ask_whether(&self, run: &mut Run, action: Action) -> (result: Result<bool, Action>)
        ensures
            match ask(self.replies(), old(run)@, action@) {
                Ok((reply, st)) => result == Ok::<bool, Action>(said_yes(reply)) && final(run)@
                    == st,
                Err(pause) => result matches Err(a) && a@ == pause.action && final(run)@ == old(
                    run,
                )@,
            },
    {
        match self.ask(run, action) {
            Ok(Reply::Found(yes)) => Ok(*yes),
            Ok(Reply::Done(yes)) => Ok(*yes),
            Ok(_) => Ok(false),
            Err(action) => Err(action),
        }
    }

    /// Has the host read the handles that are named and held, and records
    /// what it read.
    fn process_result(&self, run: &mut Run, error: bool, output: bool) -> (result: Result<
        (),
        Action,
    >)
        ensures
            gone(result, final(run)@, drain(self.replies(), old(run)@, error, output)),
    {
        let error = error && run.held_error;
        let output = output && run.held_output;
        if !error && !output {
            return Ok(());
        }
        let (error_text, output_text) = match self.ask(run, Action::Drain { error, output }) {
            Ok(Reply::Drained { error: error_text, output: output_text }) => (
                error_text.clone(),
                output_text.clone(),
            ),
            Ok(_) => {
                return Ok(());
            },
            Err(action) => {
                return Err(action);
            },
        };
        if error {
            run.held_error = false;
            if !error_text.as_str().is_empty() {
                run.push_error_result(error_text);
            }
        }
        if output {
            run.held_output = false;
            if !output_text.as_str().is_empty() {
                run.push_output_result(output_text);
            }
        }
        Ok(())
    }

    /// Has the host drop the handles that are named and held.
    fn release(&self, run: &mut Run, error: bool, output: bool) -> (result: Result<(), Action>)
        ensures
            gone(result, final(run)@, release(self.replies(), old(run)@, error, output)),
    {
        let error = error && run.held_error;
        let output = output && run.held_output;
        if !error && !output {
            return Ok(());
        }
        match self.ask(run, Action::Release { error, output }) {
            Ok(_) => {},
            Err(action) => {
                return Err(action);
            },
        }
        if error {
            run.held_error = false;
        }
        if output {
            run.held_output = false;
        }
        Ok(())
    }

    /// `cd`.
    fn cd(&self, run: &mut Run, arguments: &Vec<String>) -> (result: Result<(), Action>)
        ensures
            gone(
                result,
                final(run)@,
                change_directory(self.replies(), old(run)@, arguments.deep_view()),
            ),
    {
        match self.release(run, true, true) {
            Ok(_) => {},
            Err(action) => {
                return Err(action);
            },
        }
        if arguments.len() == 0 {
            run.push_error_result(String::from_str("Cd has no argument"));
            return Ok(());
        }
        let directory = &arguments[arguments.len() - 1];
        match self.ask_whether(run, Action::IsDirectory(directory.clone())) {
            Ok(true) => {},
            Ok(false) => {
                run.push_error_result(message(directory.as_str(), " is not a valid directory"));
                return Ok(());
            },
            Err(action) => {
                return Err(action);
            },
        }
        match self.ask_whether(run, Action::ChangeDirectory(directory.clone())) {
            Ok(true) => Ok(()),
            Ok(false) => {
                run.push_error_result(String::from_str("Could not set working directory"));
                Ok(())
            },
            Err(action) => Err(action),
        }
    }

    /// `set`.
    fn set(&self, run: &mut Run, arguments: &Vec<String>) -> (result: Result<(), Action>)
        ensures
            gone(
                result,
                final(run)@,
                set_variable(self.replies(), old(run)@, arguments.deep_view()),
            ),
    {
        if arguments.len() < 2 {
            let count = string_of(&decimal_of(arguments.len()));
            run.push_error_result(
                message("Expected at least 2 arguments but found ", count.as_str()),
            );
            return Ok(());
        }
        if !is_valid_key(&arguments[0]) {
            run.push_error_result(
                message(
                    "An environment variable can only contain alphabetic characters or _ but found ",
                    arguments[0].as_str(),
                ),
            );
            return Ok(());
        }
        let key = arguments[0].clone();
        let value = join_rest(arguments);
        match self.ask(run, Action::SetVariable(key, value)) {
            Ok(_) => Ok(()),
            Err(action) => Err(action),
        }
    }

    /// The input of a process before its redirection is looked at.
    fn pipe_prev_stdout_to_stdin(run: &mut Run) -> (input: Source)
        ensures
            (input, final(run)@) == piped_input(old(run)@),
    {
        if run.piped {
            let input = if run.held_output {
                Source::Held
            } else {
                Source::Null
            };
            run.held_output = false;
            input
        } else {
            Source::Inherit
        }
    }

    /// Gives up the output handle that was to be the input of a process.
    fn give_up(&self, run: &mut Run, input: Source) -> (result: Result<(), Action>)
        ensures
            gone(result, final(run)@, give_up(self.replies(), old(run)@, input)),
    {
        match input {
            Source::Held => match self.ask(run, Action::Release { error: false, output: true }) {
                Ok(_) => Ok(()),
                Err(action) => Err(action),
            },
            _ => Ok(()),
        }
    }

    /// The input of a process, given what it is without a redirection.
    fn redirect_file_to_stdin(&self, run: &mut Run, input: Source, file: &Option<String>) -> (result:
        Result<Source, Action>)
        ensures
            done(
                result,
                final(run)@,
                choose_input(self.replies(), old(run)@, input, file.deep_view()),
            ),
    {
        let filename = match file {
            None => {
                return Ok(input);
            },
            Some(filename) => filename,
        };
        if *filename == String::from_str("/dev/null") {
            return match self.give_up(run, input) {
                Ok(_) => Ok(Source::Null),
                Err(action) => Err(action),
            };
        }
        match self.ask_whether(run, Action::IsFile(filename.clone())) {
            Ok(true) => {},
            Ok(false) => {
                run.push_error_result(message("File does not exist: ", filename.as_str()));
                return match self.give_up(run, input) {
                    Ok(_) => Ok(Source::Null),
                    Err(action) => Err(action),
                };
            },
            Err(action) => {
                return Err(action);
            },
        }
        match self.ask_whether(run, Action::OpenInput(filename.clone())) {
            Ok(true) => match self.give_up(run, input) {
                Ok(_) => Ok(Source::File),
                Err(action) => Err(action),
            },
            Ok(false) => {
                run.push_error_result(message("Could not read file: ", filename.as_str()));
                Ok(input)
            },
            Err(action) => Err(action),
        }
    }

    /// Where the output stream of a process goes.
    fn redirect_stdout_to_file(&self, run: &mut Run, file: &Option<String>) -> (result: Result<
        Sink,
        Action,
    >)
        ensures
            done(
                result,
                final(run)@,
                choose_sink(self.replies(), old(run)@, false, file.deep_view()),
            ),
    {
        let filename = match file {
            None => {
                return Ok(Sink::Piped);
            },
            Some(filename) => filename,
        };
        if *filename == String::from_str("/dev/null") {
            return Ok(Sink::Null);
        }
        match self.ask_whether(run, Action::CreateOutput(filename.clone())) {
            Ok(true) => Ok(Sink::File),
            Ok(false) => {
                run.push_error_result(message("Could not create file: ", filename.as_str()));
                Ok(Sink::Piped)
            },
            Err(action) => Err(action),
        }
    }

    /// Where the error stream of a process goes.
    fn redirect_stderr_to_file(&self, run: &mut Run, file: &Option<String>) -> (result: Result<
        Sink,
        Action,
    >)
        ensures
            done(
                result,
                final(run)@,
                choose_sink(self.replies(), old(run)@, true, file.deep_view()),
            ),
    {
        let filename = match file {
            None => {
                return Ok(Sink::Piped);
            },
            Some(filename) => filename,
        };
        if *filename == String::from_str("/dev/null") {
            return Ok(Sink::Null);
        }
        match self.ask_whether(run, Action::CreateError(filename.clone())) {
            Ok(true) => Ok(Sink::File),
            Ok(false) => {
                run.push_error_result(message("Could not create file: ", filename.as_str()));
                Ok(Sink::Piped)
            },
            Err(action) => Err(action),
        }
    }

    /// A program.
    fn execute_command(
        &self,
        run: &mut Run,
        program_name: &String,
        arguments: &Vec<String>,
        redirect: &Redirect,
    ) -> (result: Result<(), Action>)
        ensures
            gone(
                result,
                final(run)@,
                execute_command(
                    self.directory(),
                    self.replies(),
                    old(run)@,
                    program_name@,
                    arguments.deep_view(),
                    redirect@,
                ),
            ),
    {
        let program_path = program_path(self.program_dir.as_str(), program_name.as_str());
        let input = Self::pipe_prev_stdout_to_stdin(run);
        let stdin = match self.redirect_file_to_stdin(run, input, &redirect.stdin) {
            Ok(stdin) => stdin,
            Err(action) => {
                return Err(action);
            },
        };
        let stdout = match self.redirect_stdout_to_file(run, &redirect.stdout) {
            Ok(stdout) => stdout,
            Err(action) => {
                return Err(action);
            },
        };
        let stderr = match self.redirect_stderr_to_file(run, &redirect.stderr) {
            Ok(stderr) => stderr,
            Err(action) => {
                return Err(action);
            },
        };
        let spawn = Action::Spawn {
            program: program_path.clone(),
            arguments: copy_texts(arguments),
            stdin,
            stdout,
            stderr,
        };
        let error = match self.ask(run, spawn) {
            Ok(Reply::Spawned(Outcome::Exited(success))) => {
                run.flags.push(*success);
                run.held_error = stderr == Sink::Piped;
                run.held_output = stdout == Sink::Piped;
                return Ok(());
            },
            Ok(Reply::Spawned(Outcome::NotRunning)) => {
                run.held_error = stderr == Sink::Piped;
                run.held_output = stdout == Sink::Piped;
                String::from_str("Command was not running")
            },
            Ok(Reply::Spawned(Outcome::Failed(text))) => {
                let mut error = text.clone();
                error.append("\r\n");
                error.append(program_path.as_str());
                error
            },
            Ok(_) => {
                return Ok(());
            },
            Err(action) => {
                return Err(action);
            },
        };
        run.push_error_result(error);
        run.flags.push(false);
        Ok(())
    }

    /// A command.
    fn execute(
        &self,
        run: &mut Run,
        cmd_type: &String,
        arguments: &Vec<String>,
        redirect: &Redirect,
    ) -> (result: Result<(), Action>)
        ensures
            gone(
                result,
                final(run)@,
                execute(
                    self.directory(),
                    self.replies(),
                    old(run)@,
                    cmd_type@,
                    arguments.deep_view(),
                    redirect@,
                ),
            ),
    {
        if *cmd_type == String::from_str("cd") {
            self.cd(run, arguments)
        } else if *cmd_type == String::from_str("exit") {
            Err(Action::Exit)
        } else if *cmd_type == String::from_str("set") {
            self.set(run, arguments)
        } else if *cmd_type == String::from_str("clear") {
            match self.ask(run, Action::Clear) {
                Ok(_) => Ok(()),
                Err(action) => Err(action),
            }
        } else {
            self.execute_command(run, cmd_type, arguments, redirect)
        }
    }

    /// What `&&` and `||` make of the success of their two sides.
    pub fn process_logic(op: Operator, left: bool, right: bool) -> (both: bool)
        ensures
            both == combine(op, left, right),
            op == Operator::LogicAnd ==> both == (left && right),
            op == Operator::LogicOr ==> both == (left || right),
    {
        match op {
            Operator::LogicAnd => left && right,
            Operator::LogicOr => left || right,
            _ => right,
        }
    }

    /// An expression followed by the reading of what its last process wrote.
    fn eval_drained(&self, run: &mut Run, node: &Expr) -> (result: Result<(), Action>)
        ensures
            gone(
                result,
                final(run)@,
                eval_drained(self.directory(), self.replies(), old(run)@, node@),
            ),
        decreases node, 1nat,
    {
        match self.eval_expr(run, node) {
            Ok(_) => self.process_result(run, true, true),
            Err(action) => Err(action),
        }
    }

    /// Evaluates an expression as far as the replies go.
    fn eval_expr(&self, run: &mut Run, node: &Expr) -> (result: Result<(), Action>)
        ensures
            gone(
                result,
                final(run)@,
                eval_expr(self.directory(), self.replies(), old(run)@, node@),
            ),
        decreases node, 0nat,
    {
        match node {
            Expr::Cmd { name, arguments, redirect } => self.execute(
                run,
                name,
                arguments,
                redirect,
            ),
            Expr::Binary(lhs, Operator::Pipe, rhs) => {
                match self.eval_expr(run, lhs) {
                    Ok(_) => {},
                    Err(action) => {
                        return Err(action);
                    },
                }
                match self.process_result(run, true, false) {
                    Ok(_) => {},
                    Err(action) => {
                        return Err(action);
                    },
                }
                run.piped = true;
                match self.eval_expr(run, rhs) {
                    Ok(_) => {},
                    Err(action) => {
                        return Err(action);
                    },
                }
                run.piped = false;
                Ok(())
            },
            Expr::Binary(lhs, Operator::Next, rhs) => {
                match self.eval_drained(run, lhs) {
                    Ok(_) => {},
                    Err(action) => {
                        return Err(action);
                    },
                }
                self.eval_drained(run, rhs)
            },
            Expr::Binary(lhs, Operator::NextIfSuccess, rhs) => {
                let depth = run.depth();
                match self.eval_drained(run, lhs) {
                    Ok(_) => {},
                    Err(action) => {
                        return Err(action);
                    },
                }
                if run.last_flag(depth) {
                    self.eval_drained(run, rhs)
                } else {
                    Ok(())
                }
            },
            Expr::Binary(lhs, op, rhs) => {
                let depth = run.depth();
                match self.eval_drained(run, lhs) {
                    Ok(_) => {},
                    Err(action) => {
                        return Err(action);
                    },
                }
                let left = run.pop_flag(depth);
                let depth = run.depth();
                match self.eval_drained(run, rhs) {
                    Ok(_) => {},
                    Err(action) => {
                        return Err(action);
                    },
                }
                let right = run.pop_flag(depth);
                run.flags.push(Self::process_logic(*op, left, right));
                Ok(())
            },
            Expr::If(cond, then_expr) => {
                let depth = run.depth();
                match self.eval_drained(run, cond) {
                    Ok(_) => {},
                    Err(action) => {
                        return Err(action);
                    },
                }
                let condition = run.pop_flag(depth);
                if condition {
                    self.eval_expr(run, then_expr)
                } else {
                    Ok(())
                }
            },
            Expr::IfElse(cond, then_expr, else_expr) => {
                let depth = run.depth();
                match self.eval_drained(run, cond) {
                    Ok(_) => {},
                    Err(action) => {
                        return Err(action);
                    },
                }
                let condition = run.pop_flag(depth);
                if condition {
                    self.eval_expr(run, then_expr)
                } else {
                    self.eval_expr(run, else_expr)
                }
            },
        }
    }

    /// Starts the evaluation of `ast` and gives the first action. The
    /// replies of an evaluation before are forgotten.
    ///
    /// The host does what the action says and hands the reply to
    /// [`Interpreter::resume`], until the action is to finish or to exit. The
    /// questions to the file system are answered here, and their answers are
    /// kept with the replies.
    pub fn eval(&mut self, ast: &Expr) -> (action: Action)
        ensures
            final(self).directory() == old(self).directory(),
            action@ == outcome(final(self).directory(), final(self).replies(), ast@).action,
            outcome(final(self).directory(), final(self).replies(), ast@).used
                == final(self).replies().len(),
            !action@.is_probe(),
            probed(Seq::empty(), final(self).replies()),
    {
        self.log.clear();
        proof {
            assert(self.replies() == Seq::<ReplyView>::empty());
            lemma_outcome_bounded(self.directory(), self.replies(), ast@);
            assert(self.replies().take(0) == self.replies());
        }
        self.settle(ast)
    }

    /// Goes on with the evaluation of `ast`, the tree that was handed to
    /// [`Interpreter::eval`], after the host has answered `reply`, and gives
    /// the next action. A reply that answers the action that was asked for is
    /// kept with the replies. Any other reply is left aside, and the action is
    /// asked for again.
    pub fn resume(&mut self, ast: &Expr, reply: Reply) -> (action: Action)
        ensures
            final(self).directory() == old(self).directory(),
            action@ == outcome(final(self).directory(), final(self).replies(), ast@).action,
            outcome(final(self).directory(), final(self).replies(), ast@).used
                == final(self).replies().len(),
            !action@.is_probe(),
            ({
                let offered = old(self).replies().push(reply@);
                let taken = outcome(old(self).directory(), offered, ast@).used;
                probed(offered.take(taken), final(self).replies())
            }),
            ({
                let before = outcome(old(self).directory(), old(self).replies(), ast@);
                before.used == old(self).replies().len() ==> probed(
                    if fits(before.action, reply@) {
                        old(self).replies().push(reply@)
                    } else {
                        old(self).replies()
                    },
                    final(self).replies(),
                )
            }),
    {
        let ghost before = self.replies();
        self.log.push(reply);
        proof {
            let offered = self.replies();
            assert(offered == before.push(reply@));
            if outcome(self.directory(), before, ast@).used == before.len() {
                lemma_reply_taken(self.directory(), before, reply@, ast@);
                assert(offered.take(offered.len() as int) == offered);
                assert(offered.take(before.len() as int) == before);
            }
        }
        self.settle(ast)
    }

    /// Walks over the tree until an action is reached that the host has to
    /// do. The replies that the walk does not take are dropped.
    fn settle(&mut self, ast: &Expr) -> (action: Action)
        ensures
            final(self).directory() == old(self).directory(),
            action@ == outcome(final(self).directory(), final(self).replies(), ast@).action,
            outcome(final(self).directory(), final(self).replies(), ast@).used
                == final(self).replies().len(),
            !action@.is_probe(),
            probed(
                old(self).replies().take(
                    outcome(old(self).directory(), old(self).replies(), ast@).used,
                ),
                final(self).replies(),
            ),
    {
        let ghost dir = self.directory();
        let ghost kept = self.replies().take(outcome(dir, self.replies(), ast@).used);
        assert(kept.take(kept.len() as int) == kept);
        loop
            invariant
                self.directory() == dir,
                dir == old(self).directory(),
                kept == old(self).replies().take(
                    outcome(old(self).directory(), old(self).replies(), ast@).used,
                ),
                probed(kept, self.replies().take(outcome(dir, self.replies(), ast@).used)),
            decreases budget(ast@) + 1 - outcome(dir, self.replies(), ast@).used,
        {
            let ghost log = self.replies();
            let (action, used) = self.replay(ast);
            proof {
                lemma_outcome_bounded(dir, log, ast@);
                lemma_rest_unused(dir, log, ast@);
            }
            self.log.truncate(used);
            let ghost cut = self.replies();
            assert(cut == log.take(used as int));
            let found = match &action {
                Action::IsDirectory(path) => is_dir(path.as_str()),
                Action::IsFile(path) => is_file(path.as_str()),
                _ => {
                    return action;
                },
            };
            self.log.push(Reply::Found(found));
            proof {
                let answered = self.replies();
                assert(answered == cut.push(ReplyView::Found(found)));
                lemma_reply_taken(dir, cut, ReplyView::Found(found), ast@);
                assert(answered.take(outcome(dir, answered, ast@).used) == answered);
                assert(answered.take(kept.len() as int) == cut.take(kept.len() as int));
            }
        }
    }

    /// Walks over `ast` with the replies of the log: the action at which the
    /// walk stops and the number of replies that it took.
    fn replay(&self, ast: &Expr) -> (stop: (Action, usize))
        ensures
            stop.0@ == outcome(self.directory(), self.replies(), ast@).action,
            stop.1 == outcome(self.directory(), self.replies(), ast@).used,
    {
        let mut run = Run::start();
        match self.eval_drained(&mut run, ast) {
            Ok(_) => {
                let used = run.used;
                (Action::Finish { errors: run.errors, outputs: run.outputs }, used)
            },
            Err(action) => (action, run.used),
        }
    }
}

} // verus!
