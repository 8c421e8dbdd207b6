use shell::ast::{Expr, Operator, Redirect};
use shell::lexer::Lexer;
use shell::parser::{ParseError, Parser, Stream};
use shell::token::Token;
use shell::variables::Variables;

fn programs() -> Vec<String> {
    ["a", "b", "c", "d", "cmd", "echo", "true", "false"].iter().map(|n| n.to_string()).collect()
}

fn tokens(input: &str) -> Vec<Token> {
    Lexer::with_programs(input, programs()).get_tokens()
}

fn parse(input: &str) -> Result<Expr, String> {
    Parser::new(tokens(input), Variables::new()).parse()
}

fn try_parse(input: &str) -> Result<Expr, ParseError> {
    Parser::new(tokens(input), Variables::new()).try_parse()
}

fn cmd(name: &str) -> Expr {
    Expr::Cmd {
        name: name.to_string(),
        arguments: vec![],
        redirect: Redirect::new(None, None, None),
    }
}

fn echo(arguments: &[&str]) -> Expr {
    Expr::Cmd {
        name: "echo".to_string(),
        arguments: arguments.iter().map(|a| a.to_string()).collect(),
        redirect: Redirect::new(None, None, None),
    }
}

fn binary(left: Expr, op: Operator, right: Expr) -> Expr {
    Expr::Binary(Box::new(left), op, Box::new(right))
}

#[test]
fn precedence_pipe_binds_tighter_than_sequence() {
    assert_eq!(
        parse("a ; b | c").unwrap(),
        binary(cmd("a"), Operator::Next, binary(cmd("b"), Operator::Pipe, cmd("c")))
    );
}

#[test]
fn precedence_pipe_binds_tighter_than_logic() {
    assert_eq!(
        parse("a | b && c").unwrap(),
        binary(binary(cmd("a"), Operator::Pipe, cmd("b")), Operator::LogicAnd, cmd("c"))
    );
}

#[test]
fn precedence_pipe_binds_tighter_than_the_success_gate() {
    assert_eq!(
        parse("a & b | c & d").unwrap(),
        binary(
            binary(
                cmd("a"),
                Operator::NextIfSuccess,
                binary(cmd("b"), Operator::Pipe, cmd("c"))
            ),
            Operator::NextIfSuccess,
            cmd("d")
        )
    );
}

#[test]
fn precedence_one_band_groups_from_the_left() {
    assert_eq!(
        parse("a || b && c & d").unwrap(),
        binary(
            binary(binary(cmd("a"), Operator::LogicOr, cmd("b")), Operator::LogicAnd, cmd("c")),
            Operator::NextIfSuccess,
            cmd("d")
        )
    );
    assert_eq!(
        parse("a ; b ; c").unwrap(),
        binary(binary(cmd("a"), Operator::Next, cmd("b")), Operator::Next, cmd("c"))
    );
    assert_eq!(
        parse("a | b | c").unwrap(),
        binary(binary(cmd("a"), Operator::Pipe, cmd("b")), Operator::Pipe, cmd("c"))
    );
}

#[test]
fn binding_powers() {
    assert_eq!(Parser::get_binding_power(&Operator::Next), (1, 2));
    assert_eq!(Parser::get_binding_power(&Operator::NextIfSuccess), (3, 4));
    assert_eq!(Parser::get_binding_power(&Operator::LogicOr), (3, 4));
    assert_eq!(Parser::get_binding_power(&Operator::LogicAnd), (3, 4));
    assert_eq!(Parser::get_binding_power(&Operator::Pipe), (5, 6));
}

#[test]
fn arguments_keep_their_order() {
    assert_eq!(parse("echo 123 456 abc").unwrap(), echo(&["123", "456", "abc"]));
    assert_eq!(parse("echo b a b a").unwrap(), echo(&["b", "a", "b", "a"]));
}

#[test]
fn hyphens_and_commands_are_arguments() {
    assert_eq!(
        parse("echo -n --all echo -").unwrap(),
        echo(&["-n", "--all", "echo", "-"])
    );
}

#[test]
fn redirects_of_all_streams() {
    assert_eq!(
        parse("echo < in a > out 2> err b").unwrap(),
        Expr::Cmd {
            name: "echo".to_string(),
            arguments: vec!["a".to_string(), "b".to_string()],
            redirect: Redirect::new(
                Some("in".to_string()),
                Some("out".to_string()),
                Some("err".to_string())
            ),
        }
    );
}

#[test]
fn redirect_twice_is_an_error() {
    assert_eq!(
        parse("cmd < a < b"),
        Err("Only one input redirection per command is allowed".to_string())
    );
    assert_eq!(
        parse("cmd > a x > b"),
        Err("Only one output redirection per command is allowed".to_string())
    );
    assert_eq!(
        parse("cmd 2> a 2> b"),
        Err("Only one error redirection per command is allowed".to_string())
    );
    assert_eq!(try_parse("cmd < a < b"), Err(ParseError::DuplicateRedirect(Stream::Input)));
    assert_eq!(try_parse("cmd > a > b"), Err(ParseError::DuplicateRedirect(Stream::Output)));
    assert_eq!(try_parse("cmd 2> a 2> b"), Err(ParseError::DuplicateRedirect(Stream::Error)));
    assert_eq!(try_parse("cmd < a <"), Err(ParseError::DuplicateRedirect(Stream::Input)));
}

#[test]
fn redirect_without_a_file_is_an_error() {
    assert_eq!(parse("cmd <"), Err("Expected a file but found nothing".to_string()));
    assert_eq!(try_parse("cmd >"), Err(ParseError::MissingFile));
    assert_eq!(try_parse("cmd 2> | b"), Err(ParseError::MissingFile));
}

#[test]
fn redirect_of_each_command_is_its_own() {
    assert!(parse("a < x | b < x").is_ok());
}

#[test]
fn expected_a_command() {
    assert_eq!(
        parse("x"),
        Err("Expected a command or if but found Argument(\"x\")".to_string())
    );
    assert_eq!(parse(""), Err("Expected a command or if but found nothing".to_string()));
    assert_eq!(parse("a |"), Err("Expected a command or if but found nothing".to_string()));
    assert_eq!(parse("a ; ;"), Err("Expected a command or if but found Semicolon".to_string()));
    assert_eq!(try_parse("| a"), Err(ParseError::ExpectedCommand(Some(Token::Pipe))));
    assert_eq!(try_parse("a &&"), Err(ParseError::ExpectedCommand(None)));
}

#[test]
fn variables_stand_for_their_values() {
    let mut variables = Variables::new();
    variables.set("NAME".to_string(), "some value".to_string());
    variables.set("OTHER".to_string(), "2".to_string());
    let result = Parser::new(tokens("echo $NAME x $OTHER"), variables).parse();
    assert_eq!(result.unwrap(), echo(&["some value", "x", "2"]));
}

#[test]
fn variable_without_a_value_is_an_error() {
    assert_eq!(
        parse("echo $NO_SUCH_VARIABLE"),
        Err("NO_SUCH_VARIABLE is not a valid environment variable".to_string())
    );
    assert_eq!(
        try_parse("echo $nothing"),
        Err(ParseError::UndefinedVariable("nothing".to_string()))
    );
    assert_eq!(
        try_parse("$HOME"),
        Err(ParseError::ExpectedCommand(Some(Token::EnvVariable("HOME".to_string()))))
    );
}

#[test]
fn if_with_and_without_else() {
    assert_eq!(
        parse("if a then b\n").unwrap(),
        Expr::If(Box::new(cmd("a")), Box::new(cmd("b")))
    );
    assert_eq!(
        parse("if a then b else c\n").unwrap(),
        Expr::IfElse(Box::new(cmd("a")), Box::new(cmd("b")), Box::new(cmd("c")))
    );
    assert_eq!(
        parse("if a then b ;;").unwrap(),
        Expr::If(Box::new(cmd("a")), Box::new(cmd("b")))
    );
    assert_eq!(
        parse("if a | b then c ; d else a & b ;; | c").unwrap(),
        binary(
            Expr::IfElse(
                Box::new(binary(cmd("a"), Operator::Pipe, cmd("b"))),
                Box::new(binary(cmd("c"), Operator::Next, cmd("d"))),
                Box::new(binary(cmd("a"), Operator::NextIfSuccess, cmd("b"))),
            ),
            Operator::Pipe,
            cmd("c")
        )
    );
}

#[test]
fn nested_if_shares_the_end_of_the_line() {
    assert_eq!(
        parse("if a then if b then c else d\n").unwrap(),
        Expr::If(
            Box::new(cmd("a")),
            Box::new(Expr::IfElse(Box::new(cmd("b")), Box::new(cmd("c")), Box::new(cmd("d"))))
        )
    );
    assert_eq!(
        parse("if a then if b then c ;; else d\n").unwrap(),
        Expr::IfElse(
            Box::new(cmd("a")),
            Box::new(Expr::If(Box::new(cmd("b")), Box::new(cmd("c")))),
            Box::new(cmd("d"))
        )
    );
}

#[test]
fn if_that_is_not_complete_is_an_error() {
    assert_eq!(parse("if a"), Err("Unexpected end of input".to_string()));
    assert_eq!(parse("if a then b"), Err("Unexpected end of input".to_string()));
    assert_eq!(parse("if a then b else c"), Err("Unexpected end of input".to_string()));
    assert_eq!(try_parse("if a then b"), Err(ParseError::UnexpectedEnd));
    assert_eq!(
        parse("if a\n"),
        Err("Expected one of: [Then] but found: EOL".to_string())
    );
    assert_eq!(
        parse("if a then b then"),
        Err("Expected one of: [Else, DoubleSemicolon, EOL] but found: Then".to_string())
    );
    assert_eq!(
        parse("if a then b else c else"),
        Err("Expected one of: [DoubleSemicolon, EOL] but found: Else".to_string())
    );
    assert_eq!(
        try_parse("if a else"),
        Err(ParseError::Expected(vec![Token::Then], Token::Else))
    );
}

#[test]
fn tokens_behind_the_expression_are_an_error() {
    assert_eq!(
        parse("a then"),
        Err("Expected the end of the line but found Then".to_string())
    );
    assert_eq!(try_parse("a ;;"), Err(ParseError::TrailingToken(Token::DoubleSemicolon)));
    assert_eq!(try_parse("if a then b ;; else"), Err(ParseError::TrailingToken(Token::Else)));
    assert_eq!(parse("a\n").unwrap(), cmd("a"));
    assert_eq!(parse("a\nb").unwrap(), cmd("a"));
}

#[test]
fn parse_redirect_wants_a_name() {
    assert_eq!(Parser::parse_redirect(&"".to_string()), Err(ParseError::MissingFile));
    assert_eq!(Parser::parse_redirect(&"f".to_string()), Ok("f".to_string()));
}

#[test]
fn every_error_has_its_message() {
    let found = Token::Command("x".to_string());
    assert_eq!(
        ParseError::ExpectedCommand(Some(found.clone())).message(),
        "Expected a command or if but found Command(\"x\")"
    );
    assert_eq!(
        ParseError::ExpectedCommand(None).message(),
        "Expected a command or if but found nothing"
    );
    assert_eq!(
        ParseError::UndefinedVariable("V".to_string()).message(),
        "V is not a valid environment variable"
    );
    assert_eq!(
        ParseError::DuplicateRedirect(Stream::Input).message(),
        "Only one input redirection per command is allowed"
    );
    assert_eq!(
        ParseError::DuplicateRedirect(Stream::Output).message(),
        "Only one output redirection per command is allowed"
    );
    assert_eq!(
        ParseError::DuplicateRedirect(Stream::Error).message(),
        "Only one error redirection per command is allowed"
    );
    assert_eq!(ParseError::MissingFile.message(), "Expected a file but found nothing");
    assert_eq!(
        ParseError::Expected(vec![Token::Then, Token::EOL], found.clone()).message(),
        "Expected one of: [Then, EOL] but found: Command(\"x\")"
    );
    assert_eq!(ParseError::UnexpectedEnd.message(), "Unexpected end of input");
    assert_eq!(
        ParseError::TrailingToken(found).message(),
        "Expected the end of the line but found Command(\"x\")"
    );
}

#[test]
fn parser_goes_on_where_it_stopped() {
    let mut parser = Parser::new(tokens("a\nb | c"), Variables::new());
    assert_eq!(parser.parse().unwrap(), cmd("a"));
    assert_eq!(
        parser.parse(),
        Err("Expected a command or if but found EOL".to_string())
    );
}
