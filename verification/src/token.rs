//! The tokens that the lexer produces and the parser consumes.

use vstd::prelude::*;
use crate::text::{quote, quoted};

verus! {

/// One token of a command line.
#[derive(Debug, PartialEq, Eq)]
pub enum Token {
    Ampersand,
    DoubleAmpersand,
    Pipe,
    DoublePipe,
    Semicolon,
    DoubleSemicolon,
    If,
    Then,
    Else,
    EOL,
    InputRedirect(String),
    OutputRedirect(String),
    ErrorRedirect(String),
    Command(String),
    Argument(String),
    Hyphen(String),
    DoubleHyphen(String),
    EnvVariable(String),
}

/// The mathematical value of a [`Token`]: the same variants, with the text
/// as a sequence of characters.
pub ghost enum TokenView {
    Ampersand,
    DoubleAmpersand,
    Pipe,
    DoublePipe,
    Semicolon,
    DoubleSemicolon,
    If,
    Then,
    Else,
    EOL,
    InputRedirect(Seq<char>),
    OutputRedirect(Seq<char>),
    ErrorRedirect(Seq<char>),
    Command(Seq<char>),
    Argument(Seq<char>),
    Hyphen(Seq<char>),
    DoubleHyphen(Seq<char>),
    EnvVariable(Seq<char>),
}

impl View for Token {
    type V = TokenView;

    open spec fn view(&self) -> TokenView {
        match self {
            Token::Ampersand => TokenView::Ampersand,
            Token::DoubleAmpersand => TokenView::DoubleAmpersand,
            Token::Pipe => TokenView::Pipe,
            Token::DoublePipe => TokenView::DoublePipe,
            Token::Semicolon => TokenView::Semicolon,
            Token::DoubleSemicolon => TokenView::DoubleSemicolon,
            Token::If => TokenView::If,
            Token::Then => TokenView::Then,
            Token::Else => TokenView::Else,
            Token::EOL => TokenView::EOL,
            Token::InputRedirect(s) => TokenView::InputRedirect(s@),
            Token::OutputRedirect(s) => TokenView::OutputRedirect(s@),
            Token::ErrorRedirect(s) => TokenView::ErrorRedirect(s@),
            Token::Command(s) => TokenView::Command(s@),
            Token::Argument(s) => TokenView::Argument(s@),
            Token::Hyphen(s) => TokenView::Hyphen(s@),
            Token::DoubleHyphen(s) => TokenView::DoubleHyphen(s@),
            Token::EnvVariable(s) => TokenView::EnvVariable(s@),
        }
    }
}

impl DeepView for Token {
    type V = TokenView;

    open spec fn deep_view(&self) -> TokenView {
        self@
    }
}

impl TokenView {
    /// A variant's name followed by its text in parentheses, the text
    /// formatted as `{:?}` formats a string.
    pub open spec fn labelled(label: Seq<char>, text: Seq<char>) -> Seq<char> {
        label + "("@ + quoted(text) + ")"@
    }

    /// The token as it is shown in messages: the name of the variant, and for
    /// a variant with text, the quoted text in parentheses after it.
    pub open spec fn text(self) -> Seq<char> {
        match self {
            TokenView::Ampersand => "Ampersand"@,
            TokenView::DoubleAmpersand => "DoubleAmpersand"@,
            TokenView::Pipe => "Pipe"@,
            TokenView::DoublePipe => "DoublePipe"@,
            TokenView::Semicolon => "Semicolon"@,
            TokenView::DoubleSemicolon => "DoubleSemicolon"@,
            TokenView::If => "If"@,
            TokenView::Then => "Then"@,
            TokenView::Else => "Else"@,
            TokenView::EOL => "EOL"@,
            TokenView::InputRedirect(s) => Self::labelled("InputRedirect"@, s),
            TokenView::OutputRedirect(s) => Self::labelled("OutputRedirect"@, s),
            TokenView::ErrorRedirect(s) => Self::labelled("ErrorRedirect"@, s),
            TokenView::Command(s) => Self::labelled("Command"@, s),
            TokenView::Argument(s) => Self::labelled("Argument"@, s),
            TokenView::Hyphen(s) => Self::labelled("Hyphen"@, s),
            TokenView::DoubleHyphen(s) => Self::labelled("DoubleHyphen"@, s),
            TokenView::EnvVariable(s) => Self::labelled("EnvVariable"@, s),
        }
    }
}

/// The texts of `tokens` between square brackets, separated by a comma and a
/// space.
pub open spec fn list_text(tokens: Seq<TokenView>) -> Seq<char> {
    "["@ + joined_text(tokens) + "]"@
}

/// The texts of `tokens`, separated by a comma and a space.
pub open spec fn joined_text(tokens: Seq<TokenView>) -> Seq<char>
    decreases tokens.len(),
{
    if tokens.len() == 0 {
        Seq::empty()
    } else if tokens.len() == 1 {
        tokens[0].text()
    } else {
        joined_text(tokens.drop_last()) + ", "@ + tokens.last().text()
    }
}

fn labelled(label: &str, text: &String) -> (r: String)
    ensures
        r@ == TokenView::labelled(label@, text@),
{
    let mut r = String::from_str(label);
    r.append("(");
    let q = quote(text.as_str());
    r.append(q.as_str());
    r.append(")");
    r
}

impl Clone for Token {
    fn clone(&self) -> (r: Token)
        ensures
            r@ == self@,
    {
        match self {
            Token::Ampersand => Token::Ampersand,
            Token::DoubleAmpersand => Token::DoubleAmpersand,
            Token::Pipe => Token::Pipe,
            Token::DoublePipe => Token::DoublePipe,
            Token::Semicolon => Token::Semicolon,
            Token::DoubleSemicolon => Token::DoubleSemicolon,
            Token::If => Token::If,
            Token::Then => Token::Then,
            Token::Else => Token::Else,
            Token::EOL => Token::EOL,
            Token::InputRedirect(s) => Token::InputRedirect(s.clone()),
            Token::OutputRedirect(s) => Token::OutputRedirect(s.clone()),
            Token::ErrorRedirect(s) => Token::ErrorRedirect(s.clone()),
            Token::Command(s) => Token::Command(s.clone()),
            Token::Argument(s) => Token::Argument(s.clone()),
            Token::Hyphen(s) => Token::Hyphen(s.clone()),
            Token::DoubleHyphen(s) => Token::DoubleHyphen(s.clone()),
            Token::EnvVariable(s) => Token::EnvVariable(s.clone()),
        }
    }
}

impl Token {
    /// Whether the two tokens are the same variant with the same text.
    pub fn same(&self, other: &Token) -> (r: bool)
        ensures
            r == (self@ == other@),
    {
        match (self, other) {
            (Token::Ampersand, Token::Ampersand) => true,
            (Token::DoubleAmpersand, Token::DoubleAmpersand) => true,
            (Token::Pipe, Token::Pipe) => true,
            (Token::DoublePipe, Token::DoublePipe) => true,
            (Token::Semicolon, Token::Semicolon) => true,
            (Token::DoubleSemicolon, Token::DoubleSemicolon) => true,
            (Token::If, Token::If) => true,
            (Token::Then, Token::Then) => true,
            (Token::Else, Token::Else) => true,
            (Token::EOL, Token::EOL) => true,
            (Token::InputRedirect(a), Token::InputRedirect(b)) => *a == *b,
            (Token::OutputRedirect(a), Token::OutputRedirect(b)) => *a == *b,
            (Token::ErrorRedirect(a), Token::ErrorRedirect(b)) => *a == *b,
            (Token::Command(a), Token::Command(b)) => *a == *b,
            (Token::Argument(a), Token::Argument(b)) => *a == *b,
            (Token::Hyphen(a), Token::Hyphen(b)) => *a == *b,
            (Token::DoubleHyphen(a), Token::DoubleHyphen(b)) => *a == *b,
            (Token::EnvVariable(a), Token::EnvVariable(b)) => *a == *b,
            _ => false,
        }
    }

    /// The token as it is shown in messages.
    pub fn to_string(&self) -> (r: String)
        ensures
            r@ == self@.text(),
    {
        match self {
            Token::Ampersand => String::from_str("Ampersand"),
            Token::DoubleAmpersand => String::from_str("DoubleAmpersand"),
            Token::Pipe => String::from_str("Pipe"),
            Token::DoublePipe => String::from_str("DoublePipe"),
            Token::Semicolon => String::from_str("Semicolon"),
            Token::DoubleSemicolon => String::from_str("DoubleSemicolon"),
            Token::If => String::from_str("If"),
            Token::Then => String::from_str("Then"),
            Token::Else => String::from_str("Else"),
            Token::EOL => String::from_str("EOL"),
            Token::InputRedirect(s) => labelled("InputRedirect", s),
            Token::OutputRedirect(s) => labelled("OutputRedirect", s),
            Token::ErrorRedirect(s) => labelled("ErrorRedirect", s),
            Token::Command(s) => labelled("Command", s),
            Token::Argument(s) => labelled("Argument", s),
            Token::Hyphen(s) => labelled("Hyphen", s),
            Token::DoubleHyphen(s) => labelled("DoubleHyphen", s),
            Token::EnvVariable(s) => labelled("EnvVariable", s),
        }
    }
}

/// Whether one of `tokens` is the same as `token`.
pub fn contains_token(tokens: &Vec<Token>, token: &Token) -> (found: bool)
    ensures
        found == tokens.deep_view().contains(token@),
{
    let mut i: usize = 0;
    while i < tokens.len()
        invariant
            i <= tokens.len(),
            forall|j: int| 0 <= j < i ==> tokens.deep_view()[j] != token@,
        decreases tokens.len() - i,
    {
        if tokens[i].same(token) {
            assert(tokens.deep_view()[i as int] == token@);
            return true;
        }
        i += 1;
    }
    false
}

/// The texts of `tokens` as a bracketed list.
pub fn list_to_string(tokens: &Vec<Token>) -> (r: String)
    ensures
        r@ == list_text(tokens.deep_view()),
{
    let mut r = String::from_str("[");
    let mut i: usize = 0;
    while i < tokens.len()
        invariant
            i <= tokens.len(),
            r@ == "["@ + joined_text(tokens.deep_view().take(i as int)),
        decreases tokens.len() - i,
    {
        if i > 0 {
            r.append(", ");
        }
        let t = tokens[i].to_string();
        r.append(t.as_str());
        proof {
            let all = tokens.deep_view();
            let before = all.take(i as int);
            let now = all.take(i + 1);
            assert(now.drop_last() == before);
        }
        i += 1;
    }
    assert(tokens.deep_view().take(tokens.len() as int) == tokens.deep_view());
    r.append("]");
    r
}

} // verus!
