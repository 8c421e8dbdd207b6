use shell::ast::{Expr, Operator, Redirect};
use shell::host::{Action, Outcome, Reply, Sink, Source};
use shell::interpreter::Interpreter;
use shell::lexer::Lexer;
use shell::parser::Parser;
use shell::utils::{is_dir, is_file};
use shell::variables::Variables;

const PROGRAM_DIR: &str = "/programs/";

/// A host that runs no process: it plays the programs `true`, `false`,
/// `echo`, `cat`, `grep` and `pwd`, and keeps what a real host would keep.
struct Host {
    held_output: Option<String>,
    held_error: Option<String>,
    directory: String,
    variables: Vec<(String, String)>,
    spawned: Vec<String>,
    inputs: Vec<Source>,
    actions: Vec<String>,
    cleared: bool,
}

impl Host {
    fn new() -> Host {
        Host {
            held_output: None,
            held_error: None,
            directory: "/home".to_string(),
            variables: Vec::new(),
            spawned: Vec::new(),
            inputs: Vec::new(),
            actions: Vec::new(),
            cleared: false,
        }
    }

    fn run(&self, name: &str, arguments: &[String], input: &str) -> Option<(bool, String, String)> {
        match name {
            "true" => Some((true, String::new(), String::new())),
            "false" => Some((false, String::new(), String::new())),
            "echo" => Some((true, format!("{}\r\n", arguments.join(" ")), String::new())),
            "pwd" => Some((true, format!("{}\r\n", self.directory), String::new())),
            "cat" => {
                if arguments.is_empty() {
                    Some((true, input.to_string(), String::new()))
                } else {
                    Some((false, String::new(), format!("Can't open file: {}\r\n", arguments[0])))
                }
            }
            "grep" => {
                let found: Vec<&str> =
                    input.lines().filter(|line| line.contains(arguments[0].as_str())).collect();
                Some((!found.is_empty(), found.join("\r\n"), String::new()))
            }
            _ => None,
        }
    }

    fn perform(&mut self, action: Action) -> Reply {
        match action {
            Action::Spawn { program, arguments, stdin, stdout, stderr } => {
                self.actions.push("spawn".to_string());
                let name = program.strip_prefix(PROGRAM_DIR).expect("a path in the directory");
                self.spawned.push(name.to_string());
                self.inputs.push(stdin);
                let input = match stdin {
                    Source::Held => self.held_output.take().expect("an output handle to forward"),
                    _ => String::new(),
                };
                match self.run(name, &arguments, &input) {
                    Some((success, output, error)) => {
                        self.held_output = if stdout == Sink::Piped { Some(output) } else { None };
                        self.held_error = if stderr == Sink::Piped { Some(error) } else { None };
                        Reply::Spawned(Outcome::Exited(success))
                    }
                    None => Reply::Spawned(Outcome::Failed("program not found".to_string())),
                }
            }
            Action::Drain { error, output } => {
                self.actions.push("drain".to_string());
                let error_text = if error {
                    self.held_error.take().expect("an error handle to read")
                } else {
                    String::new()
                };
                let output_text = if output {
                    self.held_output.take().expect("an output handle to read")
                } else {
                    String::new()
                };
                Reply::Drained { error: error_text, output: output_text }
            }
            Action::Release { error, output } => {
                self.actions.push("release".to_string());
                if error {
                    self.held_error.take().expect("an error handle to drop");
                }
                if output {
                    self.held_output.take().expect("an output handle to drop");
                }
                Reply::Done(true)
            }
            Action::ChangeDirectory(path) => {
                self.actions.push("cd".to_string());
                self.directory = path;
                Reply::Done(true)
            }
            Action::SetVariable(key, value) => {
                self.actions.push("set".to_string());
                self.variables.push((key, value));
                Reply::Done(true)
            }
            Action::Clear => {
                self.cleared = true;
                Reply::Done(true)
            }
            Action::OpenInput(_) => Reply::Done(true),
            Action::CreateOutput(_) | Action::CreateError(_) => Reply::Done(true),
            other => panic!("the host was asked for {:?}", other),
        }
    }
}

/// A directory that exists: `/tmp` where there is one.
fn directory() -> &'static str {
    if is_dir("/tmp") {
        "/tmp"
    } else {
        "/"
    }
}

fn run(host: &mut Host, ast: &Expr) -> Action {
    let mut interpreter = Interpreter::new(PROGRAM_DIR);
    let mut action = interpreter.eval(ast);
    let mut steps = 0;
    loop {
        match action {
            Action::Finish { .. } | Action::Exit => return action,
            other => {
                let reply = host.perform(other);
                action = interpreter.resume(ast, reply);
            }
        }
        steps += 1;
        assert!(steps < 1000);
    }
}

fn parse(input: &str) -> Expr {
    let programs = ["true", "false", "echo", "cat", "grep", "pwd", "nosuch"]
        .iter()
        .map(|name| name.to_string())
        .collect();
    let tokens = Lexer::with_programs(&(input.to_string() + "\n"), programs).get_tokens();
    match Parser::new(tokens, Variables::new()).parse() {
        Ok(ast) => ast,
        Err(e) => panic!("{}", e),
    }
}

fn eval_on(host: &mut Host, input: &str) -> (Vec<String>, Vec<String>) {
    match run(host, &parse(input)) {
        Action::Finish { errors, outputs } => (errors, outputs),
        other => panic!("the evaluation ended with {:?}", other),
    }
}

fn eval(input: &str) -> (Vec<String>, Vec<String>) {
    eval_on(&mut Host::new(), input)
}

fn assert_output(input: &str, expected_output: Vec<String>) {
    let output = eval(input).1;
    assert_eq!(output, expected_output)
}

fn assert_error(input: &str, expected_error: Vec<String>) {
    let error = eval(input).0;
    assert_eq!(error, expected_error)
}

fn cmd(name: &str, arguments: &[&str], redirect: Redirect) -> Expr {
    Expr::Cmd {
        name: name.to_string(),
        arguments: arguments.iter().map(|argument| argument.to_string()).collect(),
        redirect,
    }
}

#[test]
fn interpret_if_test() {
    assert_output("if true then echo something", vec!["something".to_string()]);
    assert_output("if false then echo something", vec![]);
    assert_output("if true then echo true else echo false", vec!["true".to_string()]);
    assert_output("if false then echo true else echo false", vec!["false".to_string()]);
}

#[test]
fn interpret_complex_if_test() {
    assert_output(
        "if false then echo . else if false then echo . else echo ok",
        vec!["ok".to_string()],
    );
    assert_output(
        "if true then if true then echo ok else if false then echo . else echo .",
        vec!["ok".to_string()],
    );
    assert_output(
        "if true then if true then echo ok else echo . ;; else echo .",
        vec!["ok".to_string()],
    );
    assert_output(
        "if false then if true then echo . else echo . ;; else echo ok",
        vec!["ok".to_string()],
    );
}

#[test]
fn interpret_logic_test() {
    assert_output("if true || false then echo true else echo false", vec!["true".to_string()]);
    assert_output("if true || true then echo true else echo false", vec!["true".to_string()]);
    assert_output("if false || true then echo true else echo false", vec!["true".to_string()]);
    assert_output("if false || false then echo true else echo false", vec!["false".to_string()]);

    assert_output("if true && false then echo true else echo false", vec!["false".to_string()]);
    assert_output("if false && true then echo true else echo false", vec!["false".to_string()]);
    assert_output("if false && false then echo true else echo false", vec!["false".to_string()]);
    assert_output("if true && true then echo true else echo false", vec!["true".to_string()]);

    assert_output(
        "if true && false || false && true then echo true else echo false",
        vec!["false".to_string()],
    );
    assert_output(
        "if true && true || false && true then echo true else echo false",
        vec!["true".to_string()],
    );
    assert_output(
        "if true && false || true && true then echo true else echo false",
        vec!["true".to_string()],
    );
}

#[test]
fn conditions_go_by_the_exit_status() {
    assert_output("if echo false then echo yes else echo no", vec![
        "false".to_string(),
        "yes".to_string(),
    ]);
}

#[test]
fn success_gate_runs_the_right_side_only_after_success() {
    assert_output("false & echo never", vec![]);
    assert_output("true & echo yes", vec!["yes".to_string()]);
    let mut host = Host::new();
    eval_on(&mut host, "false & echo never");
    assert_eq!(host.spawned, vec!["false".to_string()]);
}

#[test]
fn success_gate_stays_closed_after_a_failed_spawn() {
    let mut host = Host::new();
    let (errors, outputs) = eval_on(&mut host, "true ; nosuch & echo x");
    assert_eq!(outputs, Vec::<String>::new());
    assert_eq!(errors, vec!["program not found\r\n/programs/nosuch".to_string()]);
    assert_eq!(host.spawned, vec!["true".to_string(), "nosuch".to_string()]);
}

#[test]
fn success_gate_stays_closed_after_a_failed_wait() {
    let ast = parse("true ; echo a & echo x");
    let mut interpreter = Interpreter::new(PROGRAM_DIR);
    interpreter.eval(&ast);
    interpreter.resume(&ast, Reply::Spawned(Outcome::Exited(true)));
    interpreter
        .resume(&ast, Reply::Drained { error: String::new(), output: String::new() });
    interpreter.resume(&ast, Reply::Spawned(Outcome::NotRunning));
    let action = interpreter
        .resume(&ast, Reply::Drained { error: String::new(), output: String::new() });
    assert_eq!(
        action,
        Action::Finish { errors: vec!["Command was not running".to_string()], outputs: vec![] }
    );
}

#[test]
fn success_gate_looks_at_the_left_side_only() {
    let mut host = Host::new();
    let (errors, outputs) =
        eval_on(&mut host, "true ; cd /no/such/directory/anywhere & echo x");
    assert_eq!(outputs, Vec::<String>::new());
    assert_eq!(errors, vec!["/no/such/directory/anywhere is not a valid directory".to_string()]);
    assert_output("true ; if false then echo a ;; & echo x", vec![]);
    assert_output("false ; true & echo x", vec!["x".to_string()]);
    assert_output("true ; false & echo x", vec![]);
    assert_output("true | false & echo x", vec![]);
    assert_output("false | true & echo x", vec!["x".to_string()]);
}

#[test]
fn condition_that_cannot_be_spawned_selects_the_second_branch() {
    assert_output("true ; if nosuch then echo a else echo b", vec!["b".to_string()]);
    assert_output("true ; if nosuch then echo a", vec![]);
    assert_output("true ; if cd then echo a else echo b", vec!["b".to_string()]);
    assert_output("true ; if true then echo a else echo b", vec!["a".to_string()]);
}

#[test]
fn logic_counts_a_failed_spawn_as_failure() {
    assert_output("true ; if nosuch || false then echo a else echo b", vec!["b".to_string()]);
    assert_output("true ; if nosuch || true then echo a else echo b", vec!["a".to_string()]);
    assert_output("true ; if true && nosuch then echo a else echo b", vec!["b".to_string()]);
    assert_output("true ; if cd && true then echo a else echo b", vec!["b".to_string()]);
}

#[test]
fn sequence_runs_both_sides_in_order() {
    assert_output("echo a ; echo b", vec!["a".to_string(), "b".to_string()]);
    assert_output("false ; echo b", vec!["b".to_string()]);
}

#[test]
fn logic_runs_both_sides() {
    let mut host = Host::new();
    eval_on(&mut host, "false && echo shown");
    assert_eq!(host.spawned, vec!["false".to_string(), "echo".to_string()]);
    let mut host = Host::new();
    eval_on(&mut host, "true || echo shown");
    assert_eq!(host.spawned, vec!["true".to_string(), "echo".to_string()]);
}

#[test]
fn pipe_hands_the_output_to_the_next_stage() {
    let mut host = Host::new();
    let (errors, outputs) = eval_on(&mut host, "echo hello | cat");
    assert_eq!(errors, Vec::<String>::new());
    assert_eq!(outputs, vec!["hello".to_string()]);
    assert_eq!(host.inputs, vec![Source::Inherit, Source::Held]);
    assert_eq!(host.actions, vec!["spawn", "drain", "spawn", "drain"]);
}

#[test]
fn pipe_stages_are_spawned_from_left_to_right() {
    let mut host = Host::new();
    let (_, outputs) = eval_on(&mut host, "echo abc | cat | grep b");
    assert_eq!(outputs, vec!["abc".to_string()]);
    assert_eq!(host.spawned, vec!["echo".to_string(), "cat".to_string(), "grep".to_string()]);
    assert_eq!(host.inputs, vec![Source::Inherit, Source::Held, Source::Held]);
}

#[test]
fn pipe_records_the_error_of_a_failed_stage() {
    let mut host = Host::new();
    let (errors, outputs) = eval_on(&mut host, "cat missing.txt | grep x");
    assert_eq!(errors, vec!["Can't open file: missing.txt".to_string()]);
    assert_eq!(outputs, Vec::<String>::new());
    assert_eq!(host.spawned, vec!["cat".to_string(), "grep".to_string()]);
}

#[test]
fn pipe_with_a_missing_input_file_goes_on() {
    let mut host = Host::new();
    let (errors, outputs) = eval_on(&mut host, "cat < missing.txt | grep x");
    assert_eq!(errors, vec!["File does not exist: missing.txt".to_string()]);
    assert_eq!(outputs, Vec::<String>::new());
    assert_eq!(host.spawned, vec!["cat".to_string(), "grep".to_string()]);
    assert_eq!(host.inputs, vec![Source::Null, Source::Held]);
}

#[test]
fn pipe_after_a_failed_spawn_reads_the_null_device() {
    let ast = Expr::Binary(
        Box::new(cmd("nothing", &[], Redirect::new(None, None, None))),
        Operator::Pipe,
        Box::new(cmd("cat", &[], Redirect::new(None, None, None))),
    );
    let mut host = Host::new();
    let action = run(&mut host, &ast);
    assert_eq!(
        action,
        Action::Finish {
            errors: vec!["program not found\r\n/programs/nothing".to_string()],
            outputs: vec![],
        }
    );
    assert_eq!(host.inputs, vec![Source::Inherit, Source::Null]);
}

#[test]
fn cd_under_a_pipe_discards_the_piped_input() {
    let mut host = Host::new();
    let (errors, outputs) = eval_on(&mut host, &format!("pwd | cd {}", directory()));
    assert_eq!(errors, Vec::<String>::new());
    assert_eq!(outputs, Vec::<String>::new());
    assert_eq!(host.directory, directory());
    assert_eq!(host.actions, vec!["spawn", "drain", "release", "cd"]);
    assert_eq!(host.held_output, None);
}

#[test]
fn cd_reports_what_is_wrong() {
    assert_error("cd", vec!["Cd has no argument".to_string()]);
    assert_error(
        "cd /no/such/directory/anywhere",
        vec!["/no/such/directory/anywhere is not a valid directory".to_string()],
    );
    let mut host = Host::new();
    eval_on(&mut host, "cd /no/such/directory/anywhere");
    assert_eq!(host.directory, "/home");
}

#[test]
fn cd_takes_the_last_argument() {
    let mut host = Host::new();
    let (errors, _) =
        eval_on(&mut host, &format!("cd /no/such/directory/anywhere {}", directory()));
    assert_eq!(errors, Vec::<String>::new());
    assert_eq!(host.directory, directory());
}

#[test]
fn cd_that_the_system_refuses_is_an_error() {
    let ast = cmd("cd", &[directory()], Redirect::new(None, None, None));
    let mut interpreter = Interpreter::new(PROGRAM_DIR);
    let action = interpreter.eval(&ast);
    assert_eq!(action, Action::ChangeDirectory(directory().to_string()));
    let action = interpreter.resume(&ast, Reply::Done(false));
    assert_eq!(
        action,
        Action::Finish { errors: vec!["Could not set working directory".to_string()], outputs: vec![] }
    );
}

#[test]
fn set_joins_the_values() {
    let mut host = Host::new();
    let ast = cmd("set", &["my_key", "a", "b", "c"], Redirect::new(None, None, None));
    let action = run(&mut host, &ast);
    assert_eq!(action, Action::Finish { errors: vec![], outputs: vec![] });
    assert_eq!(host.variables, vec![("my_key".to_string(), "a b c".to_string())]);
}

#[test]
fn set_checks_its_arguments() {
    let mut host = Host::new();
    let ast = cmd("set", &["key"], Redirect::new(None, None, None));
    assert_eq!(
        run(&mut host, &ast),
        Action::Finish {
            errors: vec!["Expected at least 2 arguments but found 1".to_string()],
            outputs: vec![],
        }
    );
    let ast = cmd("set", &["k2", "value"], Redirect::new(None, None, None));
    assert_eq!(
        run(&mut host, &ast),
        Action::Finish {
            errors: vec![
                "An environment variable can only contain alphabetic characters or _ but found k2"
                    .to_string()
            ],
            outputs: vec![],
        }
    );
    let ast = cmd("set", &["", "value"], Redirect::new(None, None, None));
    assert_eq!(
        run(&mut host, &ast),
        Action::Finish {
            errors: vec![
                "An environment variable can only contain alphabetic characters or _ but found"
                    .to_string()
            ],
            outputs: vec![],
        }
    );
    assert_eq!(host.variables, vec![]);
}

#[test]
fn exit_ends_the_evaluation() {
    let mut host = Host::new();
    let action = run(&mut host, &parse("echo a ; exit ; echo b"));
    assert_eq!(action, Action::Exit);
    assert_eq!(host.spawned, vec!["echo".to_string()]);
}

#[test]
fn clear_asks_the_host() {
    let mut host = Host::new();
    let (errors, outputs) = eval_on(&mut host, "clear");
    assert!(host.cleared);
    assert_eq!((errors, outputs), (vec![], vec![]));
}

#[test]
fn spawn_names_the_program_in_the_directory() {
    let ast = cmd("echo", &["a", "b"], Redirect::new(None, None, None));
    let mut interpreter = Interpreter::new("/usr/bin");
    assert_eq!(
        interpreter.eval(&ast),
        Action::Spawn {
            program: "/usr/bin/echo".to_string(),
            arguments: vec!["a".to_string(), "b".to_string()],
            stdin: Source::Inherit,
            stdout: Sink::Piped,
            stderr: Sink::Piped,
        }
    );
    let mut interpreter = Interpreter::new("");
    match interpreter.eval(&ast) {
        Action::Spawn { program, .. } => assert_eq!(program, "echo"),
        other => panic!("{:?}", other),
    }
}

#[test]
fn spawn_that_fails_is_recorded_with_the_path() {
    let mut host = Host::new();
    let ast = Expr::Binary(
        Box::new(cmd("nothing", &[], Redirect::new(None, None, None))),
        Operator::Next,
        Box::new(cmd("echo", &["on"], Redirect::new(None, None, None))),
    );
    assert_eq!(
        run(&mut host, &ast),
        Action::Finish {
            errors: vec!["program not found\r\n/programs/nothing".to_string()],
            outputs: vec!["on".to_string()],
        }
    );
}

#[test]
fn wait_that_fails_is_recorded() {
    let ast = cmd("echo", &[], Redirect::new(None, None, None));
    let mut interpreter = Interpreter::new(PROGRAM_DIR);
    interpreter.eval(&ast);
    let action = interpreter.resume(&ast, Reply::Spawned(Outcome::NotRunning));
    assert_eq!(action, Action::Drain { error: true, output: true });
    let action = interpreter.resume(
        &ast,
        Reply::Drained { error: String::new(), output: " text \r\n".to_string() },
    );
    assert_eq!(
        action,
        Action::Finish {
            errors: vec!["Command was not running".to_string()],
            outputs: vec!["text".to_string()],
        }
    );
}

#[test]
fn null_device_suppresses_a_stream() {
    let ast = cmd(
        "echo",
        &["a"],
        Redirect::new(
            Some("/dev/null".to_string()),
            Some("/dev/null".to_string()),
            Some("/dev/null".to_string()),
        ),
    );
    let mut interpreter = Interpreter::new(PROGRAM_DIR);
    let action = interpreter.eval(&ast);
    assert_eq!(
        action,
        Action::Spawn {
            program: "/programs/echo".to_string(),
            arguments: vec!["a".to_string()],
            stdin: Source::Null,
            stdout: Sink::Null,
            stderr: Sink::Null,
        }
    );
    let action = interpreter.resume(&ast, Reply::Spawned(Outcome::Exited(true)));
    assert_eq!(action, Action::Finish { errors: vec![], outputs: vec![] });
}

#[test]
fn missing_input_file_falls_back_to_the_null_device() {
    let file = "/no/such/file/anywhere.txt";
    let ast = cmd("cat", &[], Redirect::new(Some(file.to_string()), None, None));
    let mut interpreter = Interpreter::new(PROGRAM_DIR);
    let action = interpreter.eval(&ast);
    assert_eq!(
        action,
        Action::Spawn {
            program: "/programs/cat".to_string(),
            arguments: vec![],
            stdin: Source::Null,
            stdout: Sink::Piped,
            stderr: Sink::Piped,
        }
    );
    let action = interpreter.resume(&ast, Reply::Spawned(Outcome::Exited(true)));
    assert_eq!(action, Action::Drain { error: true, output: true });
    let action =
        interpreter.resume(&ast, Reply::Drained { error: String::new(), output: String::new() });
    assert_eq!(
        action,
        Action::Finish {
            errors: vec!["File does not exist: /no/such/file/anywhere.txt".to_string()],
            outputs: vec![],
        }
    );
}

#[test]
fn input_file_is_opened_before_the_spawn() {
    let file = "/etc/passwd";
    let ast = cmd("cat", &[], Redirect::new(Some(file.to_string()), None, None));
    let mut interpreter = Interpreter::new(PROGRAM_DIR);
    let action = interpreter.eval(&ast);
    if is_file(file) {
        assert_eq!(action, Action::OpenInput(file.to_string()));
        let action = interpreter.resume(&ast, Reply::Done(false));
        match action {
            Action::Spawn { stdin, .. } => assert_eq!(stdin, Source::Inherit),
            other => panic!("{:?}", other),
        }
        let mut interpreter = Interpreter::new(PROGRAM_DIR);
        interpreter.eval(&ast);
        let action = interpreter.resume(&ast, Reply::Done(true));
        match action {
            Action::Spawn { stdin, .. } => assert_eq!(stdin, Source::File),
            other => panic!("{:?}", other),
        }
    } else {
        match action {
            Action::Spawn { stdin, .. } => assert_eq!(stdin, Source::Null),
            other => panic!("{:?}", other),
        }
    }
}

#[test]
fn redirect_overrides_the_pipe() {
    let ast = Expr::Binary(
        Box::new(cmd("echo", &["a"], Redirect::new(None, None, None))),
        Operator::Pipe,
        Box::new(cmd("cat", &[], Redirect::new(Some("/dev/null".to_string()), None, None))),
    );
    let mut host = Host::new();
    let action = run(&mut host, &ast);
    assert_eq!(action, Action::Finish { errors: vec![], outputs: vec![] });
    assert_eq!(host.inputs, vec![Source::Inherit, Source::Null]);
    assert_eq!(host.actions, vec!["spawn", "drain", "release", "spawn", "drain"]);
}

#[test]
fn output_files_are_created_before_the_spawn() {
    let ast = cmd(
        "echo",
        &["a"],
        Redirect::new(None, Some("out.txt".to_string()), Some("err.txt".to_string())),
    );
    let mut interpreter = Interpreter::new(PROGRAM_DIR);
    assert_eq!(interpreter.eval(&ast), Action::CreateOutput("out.txt".to_string()));
    assert_eq!(
        interpreter.resume(&ast, Reply::Done(true)),
        Action::CreateError("err.txt".to_string())
    );
    let action = interpreter.resume(&ast, Reply::Done(false));
    assert_eq!(
        action,
        Action::Spawn {
            program: "/programs/echo".to_string(),
            arguments: vec!["a".to_string()],
            stdin: Source::Inherit,
            stdout: Sink::File,
            stderr: Sink::Piped,
        }
    );
    let action = interpreter.resume(&ast, Reply::Spawned(Outcome::Exited(true)));
    assert_eq!(action, Action::Drain { error: true, output: false });
    let action = interpreter
        .resume(&ast, Reply::Drained { error: "warning\r\n".to_string(), output: String::new() });
    assert_eq!(
        action,
        Action::Finish {
            errors: vec!["Could not create file: err.txt".to_string(), "warning".to_string()],
            outputs: vec![],
        }
    );
}

#[test]
fn a_reply_that_does_not_fit_is_left_aside() {
    let ast = cmd("echo", &["a"], Redirect::new(None, None, None));
    let mut interpreter = Interpreter::new(PROGRAM_DIR);
    let first = interpreter.eval(&ast);
    let again = interpreter.resume(&ast, Reply::Done(true));
    assert_eq!(first, again);
    let next = interpreter.resume(&ast, Reply::Spawned(Outcome::Exited(true)));
    assert_eq!(next, Action::Drain { error: true, output: true });
}

#[test]
fn every_evaluation_starts_afresh() {
    let ast = cmd("echo", &["a"], Redirect::new(None, None, None));
    let mut interpreter = Interpreter::new(PROGRAM_DIR);
    let mut host = Host::new();
    let mut action = interpreter.eval(&ast);
    while !matches!(action, Action::Finish { .. }) {
        let reply = host.perform(action);
        action = interpreter.resume(&ast, reply);
    }
    assert_eq!(action, Action::Finish { errors: vec![], outputs: vec!["a".to_string()] });
    let mut action = interpreter.eval(&ast);
    while !matches!(action, Action::Finish { .. }) {
        let reply = host.perform(action);
        action = interpreter.resume(&ast, reply);
    }
    assert_eq!(action, Action::Finish { errors: vec![], outputs: vec!["a".to_string()] });
}

#[test]
fn drained_text_is_trimmed_and_empty_text_is_dropped() {
    let ast = cmd("echo", &[], Redirect::new(None, None, None));
    let mut interpreter = Interpreter::new(PROGRAM_DIR);
    interpreter.eval(&ast);
    interpreter.resume(&ast, Reply::Spawned(Outcome::Exited(true)));
    let action = interpreter
        .resume(&ast, Reply::Drained { error: "\r\n".to_string(), output: String::new() });
    assert_eq!(action, Action::Finish { errors: vec!["".to_string()], outputs: vec![] });
}

#[test]
fn process_logic_is_the_truth_table() {
    for left in [false, true] {
        for right in [false, true] {
            assert_eq!(Interpreter::process_logic(Operator::LogicAnd, left, right), left && right);
            assert_eq!(Interpreter::process_logic(Operator::LogicOr, left, right), left || right);
        }
    }
}
