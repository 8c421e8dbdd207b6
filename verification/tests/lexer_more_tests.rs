use shell::lexer::{builtin, Lexer};
use shell::token::Token;

fn lex(input: &str) -> Vec<Token> {
    Lexer::with_programs(input, vec!["echo".to_string(), "if".to_string()]).get_tokens()
}

fn arg(text: &str) -> Token {
    Token::Argument(text.to_string())
}

#[test]
fn lex_empty_input() {
    assert_eq!(lex(""), vec![]);
}

#[test]
fn lex_numbered_redirects() {
    assert_eq!(
        lex("echo 1> out.txt 2>err.txt"),
        vec![
            Token::Command("echo".to_string()),
            Token::OutputRedirect("out.txt".to_string()),
            Token::ErrorRedirect("err.txt".to_string()),
        ]
    );
    assert_eq!(lex("1 2 12>x"), vec![arg("1"), arg("2"), arg("12"), Token::OutputRedirect("x".to_string())]);
}

#[test]
fn lex_variables_keep_their_case() {
    assert_eq!(
        lex("echo $HOME $"),
        vec![
            Token::Command("echo".to_string()),
            Token::EnvVariable("HOME".to_string()),
            Token::EnvVariable("".to_string()),
        ]
    );
}

#[test]
fn lex_line_ends() {
    assert_eq!(lex("\n"), vec![Token::EOL]);
    assert_eq!(lex("\r\n"), vec![Token::EOL]);
    assert_eq!(lex("\r"), vec![Token::EOL]);
    assert_eq!(lex("\r\r\n\n"), vec![Token::EOL, Token::EOL, Token::EOL]);
    assert_eq!(lex("echo\n"), vec![Token::Command("echo".to_string()), Token::EOL]);
}

#[test]
fn lex_keywords_in_any_case() {
    assert_eq!(lex("IF Then eLSe"), vec![Token::If, Token::Then, Token::Else]);
    assert_eq!(lex("iffy thenx"), vec![arg("iffy"), arg("thenx")]);
}

#[test]
fn lex_keyword_wins_over_program() {
    assert_eq!(lex("if"), vec![Token::If]);
}

#[test]
fn lex_double_symbols() {
    assert_eq!(
        lex(";;;|||&&&"),
        vec![
            Token::DoubleSemicolon,
            Token::Semicolon,
            Token::DoublePipe,
            Token::Pipe,
            Token::DoubleAmpersand,
            Token::Ampersand,
        ]
    );
}

#[test]
fn lex_word_ends_at_a_symbol() {
    assert_eq!(
        lex("a=b \"q x"),
        vec![arg("a"), arg("=b"), arg("\"q"), arg("x")]
    );
}

#[test]
fn lex_blank_at_the_start_belongs_to_the_word() {
    assert_eq!(lex(" echo"), vec![arg(" echo")]);
    assert_eq!(lex("echo   x  "), vec![Token::Command("echo".to_string()), arg("x")]);
}

#[test]
fn lex_words_are_lowered() {
    assert_eq!(lex("ECHO ÄB"), vec![Token::Command("echo".to_string()), arg("äb")]);
}

#[test]
fn lex_one_token_at_a_time() {
    let mut lexer = Lexer::with_programs("echo a | b", vec!["echo".to_string()]);
    assert_eq!(lexer.next(), Some(Token::Command("echo".to_string())));
    assert_eq!(lexer.next(), Some(arg("a")));
    assert_eq!(lexer.next(), Some(Token::Pipe));
    assert_eq!(lexer.next(), Some(arg("b")));
    assert_eq!(lexer.next(), None);
    assert_eq!(lexer.next(), None);
    assert_eq!(lexer.get_tokens(), vec![]);
}

#[test]
fn lex_with_a_directory_finds_builtins_and_no_missing_program() {
    let mut lexer = Lexer::new("Exit SET no_such_program_anywhere", "/no/such/directory/");
    assert_eq!(
        lexer.get_tokens(),
        vec![
            Token::Command("exit".to_string()),
            Token::Command("set".to_string()),
            arg("no_such_program_anywhere"),
        ]
    );
}

#[test]
fn builtin_names() {
    for name in ["cd", "exit", "set", "clear"] {
        assert!(builtin(&name.to_string()));
    }
    for name in ["", "echo", "CD", "cd ", "clears"] {
        assert!(!builtin(&name.to_string()));
    }
}
