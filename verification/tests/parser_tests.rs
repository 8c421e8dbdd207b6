use shell::ast::{Expr, Operator, Redirect};
use shell::lexer::Lexer;
use shell::parser::Parser;
use shell::variables::Variables;

fn programs() -> Vec<String> {
    ["cat", "echo", "grep", "fmt", "seq"].iter().map(|name| name.to_string()).collect()
}

fn parse_input(input: &str) -> Result<Expr, String> {
    let tokens = Lexer::with_programs(input, programs()).get_tokens();
    Parser::new(tokens, Variables::new()).parse()
}

fn cmd(name: &str, arguments: &[&str]) -> Expr {
    Expr::Cmd {
        name: name.to_string(),
        arguments: arguments.iter().map(|argument| argument.to_string()).collect(),
        redirect: Redirect::new(None, None, None),
    }
}

fn binary(left: Expr, op: Operator, right: Expr) -> Expr {
    Expr::Binary(Box::new(left), op, Box::new(right))
}

#[test]
fn parse_commands_test() {
    let expected_ast = Expr::Cmd {
        name: "cat".to_string(),
        arguments: vec!["./tests/files/tmp.txt".to_string()],
        redirect: Redirect::new(None, None, None),
    };
    assert_eq!(parse_input("cat ./tests/files/tmp.txt").unwrap(), expected_ast);

    let expected_ast = Expr::Cmd {
        name: "echo".to_string(),
        arguments: vec!["123".to_string(), "456".to_string(), "abc".to_string()],
        redirect: Redirect::new(None, None, None),
    };
    assert_eq!(parse_input("echo 123 456 abc").unwrap(), expected_ast);
}

#[test]
fn parse_redirects_test() {
    let expected_ast = Expr::Cmd {
        name: "echo".to_string(),
        arguments: vec!["123".to_string(), "456".to_string(), "abc".to_string()],
        redirect: Redirect::new(None, None, None),
    };
    assert_eq!(parse_input("echo 123 456 abc").unwrap(), expected_ast);
}

#[test]
fn parse_binary_test() {
    let expected_ast = binary(
        cmd("cat", &["./tests/files/tmp.txt"]),
        Operator::Pipe,
        cmd("grep", &["1"]),
    );
    assert_eq!(parse_input("cat ./tests/files/tmp.txt | grep 1").unwrap(), expected_ast);
}

#[test]
fn parse_complex_binary_test() {
    let expected_ast = binary(
        binary(
            binary(
                cmd("echo", &["123"]),
                Operator::NextIfSuccess,
                binary(
                    binary(cmd("echo", &["456"]), Operator::Pipe, cmd("grep", &["4"])),
                    Operator::Pipe,
                    cmd("fmt", &[]),
                ),
            ),
            Operator::NextIfSuccess,
            cmd("seq", &["3"]),
        ),
        Operator::Next,
        cmd("echo", &[]),
    );
    assert_eq!(
        parse_input("echo 123 & echo 456 | grep 4 | fmt & seq 3 ; echo").unwrap(),
        expected_ast
    );
}

#[test]
fn parse_complex_binary_with_redirects_test() {
    let expected_ast = binary(
        binary(
            binary(
                Expr::Cmd {
                    name: "cat".to_string(),
                    arguments: vec!["./f".to_string()],
                    redirect: Redirect::new(Some("input.txt".to_string()), None, None),
                },
                Operator::Pipe,
                cmd("fmt", &[]),
            ),
            Operator::NextIfSuccess,
            cmd("echo", &["ok"]),
        ),
        Operator::Next,
        Expr::Cmd {
            name: "echo".to_string(),
            arguments: vec!["next".to_string()],
            redirect: Redirect::new(None, Some("a.txt".to_string()), None),
        },
    );
    assert_eq!(
        parse_input("cat ./f < input.txt | fmt & echo ok ; echo next > a.txt").unwrap(),
        expected_ast
    );
}
