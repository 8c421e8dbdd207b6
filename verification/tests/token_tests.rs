use shell::token::{contains_token, list_to_string, Token};

fn all_kinds(text: &str) -> Vec<Token> {
    vec![
        Token::Ampersand,
        Token::DoubleAmpersand,
        Token::Pipe,
        Token::DoublePipe,
        Token::Semicolon,
        Token::DoubleSemicolon,
        Token::If,
        Token::Then,
        Token::Else,
        Token::EOL,
        Token::InputRedirect(text.to_string()),
        Token::OutputRedirect(text.to_string()),
        Token::ErrorRedirect(text.to_string()),
        Token::Command(text.to_string()),
        Token::Argument(text.to_string()),
        Token::Hyphen(text.to_string()),
        Token::DoubleHyphen(text.to_string()),
        Token::EnvVariable(text.to_string()),
    ]
}

#[test]
fn token_text_names_the_variant_and_quotes_the_text() {
    assert_eq!(Token::Pipe.to_string(), "Pipe");
    assert_eq!(Token::EOL.to_string(), "EOL");
    assert_eq!(Token::Command("cat".to_string()).to_string(), "Command(\"cat\")");
    assert_eq!(Token::Hyphen("-a".to_string()).to_string(), "Hyphen(\"-a\")");
    assert_eq!(Token::Argument("a\"b\\c\n".to_string()).to_string(), "Argument(\"a\\\"b\\\\c\\n\")");
}

#[test]
fn token_text_is_the_debug_form() {
    for text in ["", "cat", "a b", "ä\t\"quoted\"", "back\\slash", "line\r\nbreak"] {
        for token in all_kinds(text) {
            assert_eq!(token.to_string(), format!("{:?}", token));
        }
    }
}

#[test]
fn token_list_text_is_bracketed() {
    assert_eq!(list_to_string(&vec![]), "[]");
    assert_eq!(list_to_string(&vec![Token::Then]), "[Then]");
    assert_eq!(
        list_to_string(&vec![Token::Else, Token::DoubleSemicolon, Token::EOL]),
        "[Else, DoubleSemicolon, EOL]"
    );
    let tokens = all_kinds("x");
    assert_eq!(list_to_string(&tokens), format!("{:?}", tokens));
}

#[test]
fn token_same_compares_variant_and_text() {
    let tokens = all_kinds("x");
    for (i, a) in tokens.iter().enumerate() {
        for (j, b) in tokens.iter().enumerate() {
            assert_eq!(a.same(b), i == j);
            assert_eq!(a.same(b), a == b);
        }
    }
    assert!(!Token::Command("a".to_string()).same(&Token::Command("b".to_string())));
    assert!(Token::Command("a".to_string()).same(&Token::Command("a".to_string())));
}

#[test]
fn token_clone_is_equal() {
    for token in all_kinds("some text") {
        assert_eq!(token.clone(), token);
    }
}

#[test]
fn token_list_contains() {
    let list = vec![Token::Else, Token::Command("a".to_string())];
    assert!(contains_token(&list, &Token::Else));
    assert!(contains_token(&list, &Token::Command("a".to_string())));
    assert!(!contains_token(&list, &Token::Command("b".to_string())));
    assert!(!contains_token(&list, &Token::Then));
    assert!(!contains_token(&vec![], &Token::Then));
}
