//! The parser: it builds an expression tree from a sequence of tokens by
//! precedence climbing.

use vstd::prelude::*;
use crate::ast::{Expr, ExprView, Operator, Redirect, RedirectView};
use crate::token::{contains_token, list_text, list_to_string, Token, TokenView};
use crate::variables::Variables;

verus! {

/// One of the three standard streams of a command.
#[derive(Debug, PartialEq, Eq, Clone, Copy, Structural)]
pub enum Stream {
    Input,
    Output,
    Error,
}

/// Why a sequence of tokens is not a command line.
#[derive(Debug, PartialEq, Eq)]
pub enum ParseError {
    /// A command or `if` had to come next; the token that came instead, or
    /// `None` at the end of the tokens.
    ExpectedCommand(Option<Token>),
    /// A variable that has no value stands among the arguments of a command.
    UndefinedVariable(String),
    /// A command redirects the same stream twice.
    DuplicateRedirect(Stream),
    /// A redirection names no file.
    MissingFile,
    /// One of the first tokens had to come next; the second came instead.
    Expected(Vec<Token>, Token),
    /// The tokens end in the middle of an `if`.
    UnexpectedEnd,
    /// The expression is complete and the line goes on with this token.
    TrailingToken(Token),
}

/// The mathematical value of a [`ParseError`].
pub ghost enum ParseErrorView {
    ExpectedCommand(Option<TokenView>),
    UndefinedVariable(Seq<char>),
    DuplicateRedirect(Stream),
    MissingFile,
    Expected(Seq<TokenView>, TokenView),
    UnexpectedEnd,
    TrailingToken(TokenView),
}

impl View for ParseError {
    type V = ParseErrorView;

    open spec fn view(&self) -> ParseErrorView {
        match self {
            ParseError::ExpectedCommand(found) => ParseErrorView::ExpectedCommand(
                found.deep_view(),
            ),
            ParseError::UndefinedVariable(name) => ParseErrorView::UndefinedVariable(name@),
            ParseError::DuplicateRedirect(stream) => ParseErrorView::DuplicateRedirect(*stream),
            ParseError::MissingFile => ParseErrorView::MissingFile,
            ParseError::Expected(allowed, found) => ParseErrorView::Expected(
                allowed.deep_view(),
                found@,
            ),
            ParseError::UnexpectedEnd => ParseErrorView::UnexpectedEnd,
            ParseError::TrailingToken(found) => ParseErrorView::TrailingToken(found@),
        }
    }
}

impl ParseErrorView {
    /// The message that describes the error.
    pub open spec fn message(self) -> Seq<char> {
        match self {
            ParseErrorView::ExpectedCommand(Some(found)) => "Expected a command or if but found "@
                + found.text(),
            ParseErrorView::ExpectedCommand(None) => "Expected a command or if but found nothing"@,
            ParseErrorView::UndefinedVariable(name) => name
                + " is not a valid environment variable"@,
            ParseErrorView::DuplicateRedirect(Stream::Input) =>
                "Only one input redirection per command is allowed"@,
            ParseErrorView::DuplicateRedirect(Stream::Output) =>
                "Only one output redirection per command is allowed"@,
            ParseErrorView::DuplicateRedirect(Stream::Error) =>
                "Only one error redirection per command is allowed"@,
            ParseErrorView::MissingFile => "Expected a file but found nothing"@,
            ParseErrorView::Expected(allowed, found) => "Expected one of: "@ + list_text(allowed)
                + " but found: "@ + found.text(),
            ParseErrorView::UnexpectedEnd => "Unexpected end of input"@,
            ParseErrorView::TrailingToken(found) => "Expected the end of the line but found "@
                + found.text(),
        }
    }
}

impl ParseError {
    /// The message that describes the error.
    pub fn message(&self) -> (text: String)
        ensures
            text@ == self@.message(),
    {
        match self {
            ParseError::ExpectedCommand(Some(found)) => {
                let mut text = String::from_str("Expected a command or if but found ");
                text.append(found.to_string().as_str());
                text
            },
            ParseError::ExpectedCommand(None) => String::from_str(
                "Expected a command or if but found nothing",
            ),
            ParseError::UndefinedVariable(name) => {
                let mut text = name.clone();
                text.append(" is not a valid environment variable");
                text
            },
            ParseError::DuplicateRedirect(Stream::Input) => String::from_str(
                "Only one input redirection per command is allowed",
            ),
            ParseError::DuplicateRedirect(Stream::Output) => String::from_str(
                "Only one output redirection per command is allowed",
            ),
            ParseError::DuplicateRedirect(Stream::Error) => String::from_str(
                "Only one error redirection per command is allowed",
            ),
            ParseError::MissingFile => String::from_str("Expected a file but found nothing"),
            ParseError::Expected(allowed, found) => {
                let mut text = String::from_str("Expected one of: ");
                text.append(list_to_string(allowed).as_str());
                text.append(" but found: ");
                text.append(found.to_string().as_str());
                text
            },
            ParseError::UnexpectedEnd => String::from_str("Unexpected end of input"),
            ParseError::TrailingToken(found) => {
                let mut text = String::from_str("Expected the end of the line but found ");
                text.append(found.to_string().as_str());
                text
            },
        }
    }
}

/// A parse that failed: the error, and the position at which the parser
/// stands after it.
pub ghost struct Failure {
    pub error: ParseErrorView,
    pub at: int,
}

/// What parsing from a position gives: a value and the position behind what
/// was read, or a failure.
pub type Parsed<T> = Result<(T, int), Failure>;

/// The operator that the token stands for, if it stands for one.
pub open spec fn operator_of(token: TokenView) -> Option<Operator> {
    match token {
        TokenView::Semicolon => Some(Operator::Next),
        TokenView::Pipe => Some(Operator::Pipe),
        TokenView::Ampersand => Some(Operator::NextIfSuccess),
        TokenView::DoubleAmpersand => Some(Operator::LogicAnd),
        TokenView::DoublePipe => Some(Operator::LogicOr),
        _ => None,
    }
}

/// How strongly an operator binds the expression on its left and the one on
/// its right. `;` binds weakest and `|` strongest; `&`, `&&` and `||` bind
/// alike, in between. The right power is the greater one, so operators of
/// one band group from the left.
pub open spec fn binding_power(op: Operator) -> (u8, u8) {
    match op {
        Operator::Next => (1, 2),
        Operator::NextIfSuccess => (3, 4),
        Operator::LogicOr => (3, 4),
        Operator::LogicAnd => (3, 4),
        Operator::Pipe => (5, 6),
    }
}

/// The arguments and redirections of a command, read from `pos` on and
/// added to those that were read before. Reading stops before the first
/// token that is neither an argument nor a redirection.
pub open spec fn command_tail(
    tokens: Seq<TokenView>,
    variables: Map<Seq<char>, Seq<char>>,
    pos: int,
    arguments: Seq<Seq<char>>,
    redirect: RedirectView,
) -> Parsed<(Seq<Seq<char>>, RedirectView)>
    decreases tokens.len() - pos,
{
    if pos < 0 || pos >= tokens.len() {
        Ok(((arguments, redirect), pos))
    } else {
        match tokens[pos] {
            TokenView::Command(text)
            | TokenView::Hyphen(text)
            | TokenView::DoubleHyphen(text)
            | TokenView::Argument(text) => command_tail(
                tokens,
                variables,
                pos + 1,
                arguments.push(text),
                redirect,
            ),
            TokenView::EnvVariable(name) => if variables.dom().contains(name) {
                command_tail(tokens, variables, pos + 1, arguments.push(variables[name]), redirect)
            } else {
                Err(Failure { error: ParseErrorView::UndefinedVariable(name), at: pos })
            },
            TokenView::InputRedirect(file) => if redirect.stdin is Some {
                Err(Failure { error: ParseErrorView::DuplicateRedirect(Stream::Input), at: pos })
            } else if file.len() == 0 {
                Err(Failure { error: ParseErrorView::MissingFile, at: pos })
            } else {
                command_tail(
                    tokens,
                    variables,
                    pos + 1,
                    arguments,
                    RedirectView { stdin: Some(file), ..redirect },
                )
            },
            TokenView::OutputRedirect(file) => if redirect.stdout is Some {
                Err(Failure { error: ParseErrorView::DuplicateRedirect(Stream::Output), at: pos })
            } else if file.len() == 0 {
                Err(Failure { error: ParseErrorView::MissingFile, at: pos })
            } else {
                command_tail(
                    tokens,
                    variables,
                    pos + 1,
                    arguments,
                    RedirectView { stdout: Some(file), ..redirect },
                )
            },
            TokenView::ErrorRedirect(file) => if redirect.stderr is Some {
                Err(Failure { error: ParseErrorView::DuplicateRedirect(Stream::Error), at: pos })
            } else if file.len() == 0 {
                Err(Failure { error: ParseErrorView::MissingFile, at: pos })
            } else {
                command_tail(
                    tokens,
                    variables,
                    pos + 1,
                    arguments,
                    RedirectView { stderr: Some(file), ..redirect },
                )
            },
            _ => Ok(((arguments, redirect), pos)),
        }
    }
}

/// The token at `pos`, which has to be one of `allowed`. An end of line is
/// accepted without being read.
pub open spec fn expect_at(tokens: Seq<TokenView>, pos: int, allowed: Seq<TokenView>) -> Parsed<
    TokenView,
> {
    if pos < 0 || pos >= tokens.len() {
        Err(Failure { error: ParseErrorView::UnexpectedEnd, at: pos })
    } else if !allowed.contains(tokens[pos]) {
        Err(Failure { error: ParseErrorView::Expected(allowed, tokens[pos]), at: pos })
    } else if tokens[pos] == TokenView::EOL {
        Ok((TokenView::EOL, pos))
    } else {
        Ok((tokens[pos], pos + 1))
    }
}

/// The tokens that may follow the condition of an `if`.
pub open spec fn after_condition() -> Seq<TokenView> {
    seq![TokenView::Then]
}

/// The tokens that may follow the first branch of an `if`.
pub open spec fn after_then() -> Seq<TokenView> {
    seq![TokenView::Else, TokenView::DoubleSemicolon, TokenView::EOL]
}

/// The tokens that may follow the second branch of an `if`.
pub open spec fn after_else() -> Seq<TokenView> {
    seq![TokenView::DoubleSemicolon, TokenView::EOL]
}

/// A command with its arguments, or an `if`, read from `pos`.
pub open spec fn atom_at(tokens: Seq<TokenView>, variables: Map<Seq<char>, Seq<char>>, pos: int)
    -> Parsed<ExprView>
    decreases tokens.len() - pos, 0nat,
{
    if pos < 0 || pos >= tokens.len() {
        Err(Failure { error: ParseErrorView::ExpectedCommand(None), at: pos })
    } else {
        match tokens[pos] {
            TokenView::Command(name) => match command_tail(
                tokens,
                variables,
                pos + 1,
                Seq::empty(),
                RedirectView::none(),
            ) {
                Ok(((arguments, redirect), next)) => Ok(
                    (ExprView::Cmd { name, arguments, redirect }, next),
                ),
                Err(error) => Err(error),
            },
            TokenView::If => if_at(tokens, variables, pos + 1),
            other => Err(Failure { error: ParseErrorView::ExpectedCommand(Some(other)), at: pos + 1 }),
        }
    }
}

/// An expression read from `pos`: an atom, and after it every operator
/// whose left binding power is at least `min_power`, each with the
/// expression on its right.
pub open spec fn expr_at(
    tokens: Seq<TokenView>,
    variables: Map<Seq<char>, Seq<char>>,
    pos: int,
    min_power: u8,
) -> Parsed<ExprView>
    decreases tokens.len() - pos, 1nat,
{
    match atom_at(tokens, variables, pos) {
        Err(error) => Err(error),
        Ok((left, next)) => if pos < next <= tokens.len() {
            extended_at(tokens, variables, left, next, min_power)
        } else {
            Ok((left, next))
        },
    }
}

/// The expression `left`, which ends before `pos`, with the operators that
/// follow it: as long as the next token is an operator whose left binding
/// power is at least `min_power`, the operator is read, then the expression
/// on its right with the operator's right binding power as its least power,
/// and the two expressions become the left side of what follows.
pub open spec fn extended_at(
    tokens: Seq<TokenView>,
    variables: Map<Seq<char>, Seq<char>>,
    left: ExprView,
    pos: int,
    min_power: u8,
) -> Parsed<ExprView>
    decreases tokens.len() - pos, 3nat,
{
    if pos < 0 || pos >= tokens.len() {
        Ok((left, pos))
    } else {
        match operator_of(tokens[pos]) {
            None => Ok((left, pos)),
            Some(op) => if min_power > binding_power(op).0 {
                Ok((left, pos))
            } else {
                match expr_at(tokens, variables, pos + 1, binding_power(op).1) {
                    Err(error) => Err(error),
                    Ok((right, next)) => {
                        let joined = ExprView::Binary(Box::new(left), op, Box::new(right));
                        if pos < next <= tokens.len() {
                            extended_at(tokens, variables, joined, next, min_power)
                        } else {
                            Ok((joined, next))
                        }
                    },
                }
            },
        }
    }
}

/// What follows the word `if`, read from `pos`: a condition, `then`, an
/// expression, and either the end of the `if` or `else`, an expression and
/// the end of the `if`. An `if` ends with `;;`, which is read, or at the end
/// of the line, which is left for the `if` around it.
pub open spec fn if_at(tokens: Seq<TokenView>, variables: Map<Seq<char>, Seq<char>>, pos: int)
    -> Parsed<ExprView>
    decreases tokens.len() - pos, 2nat,
{
    match expr_at(tokens, variables, pos, 0) {
        Err(error) => Err(error),
        Ok((condition, after1)) => match expect_at(tokens, after1, after_condition()) {
            Err(error) => Err(error),
            Ok((_, start2)) => if start2 <= pos {
                Err(Failure { error: ParseErrorView::UnexpectedEnd, at: start2 })
            } else {
                match expr_at(tokens, variables, start2, 0) {
                    Err(error) => Err(error),
                    Ok((then, after2)) => match expect_at(tokens, after2, after_then()) {
                        Err(error) => Err(error),
                        Ok((TokenView::Else, start3)) => if start3 <= pos {
                            Err(Failure { error: ParseErrorView::UnexpectedEnd, at: start3 })
                        } else {
                            match expr_at(tokens, variables, start3, 0) {
                                Err(error) => Err(error),
                                Ok((otherwise, after3)) => match expect_at(
                                    tokens,
                                    after3,
                                    after_else(),
                                ) {
                                    Err(error) => Err(error),
                                    Ok((_, end)) => Ok(
                                        (
                                            ExprView::IfElse(
                                                Box::new(condition),
                                                Box::new(then),
                                                Box::new(otherwise),
                                            ),
                                            end,
                                        ),
                                    ),
                                }
                            }
                        },
                        Ok((_, end)) => Ok(
                            (ExprView::If(Box::new(condition), Box::new(then)), end),
                        ),
                    },
                }
            },
        },
    }
}

/// The expression that the tokens from `pos` on are: one expression, after
/// which the tokens end or an end of line follows. The end of the line is
/// not read, and neither is a token that stands there in its place.
pub open spec fn line_at(tokens: Seq<TokenView>, variables: Map<Seq<char>, Seq<char>>, pos: int)
    -> Parsed<ExprView> {
    match expr_at(tokens, variables, pos, 0) {
        Err(failure) => Err(failure),
        Ok((expr, next)) => if 0 <= next < tokens.len() && tokens[next] != TokenView::EOL {
            Err(Failure { error: ParseErrorView::TrailingToken(tokens[next]), at: next })
        } else {
            Ok((expr, next))
        },
    }
}

/// The expression that `tokens` are, with the values of `variables` in
/// place of the variables among the arguments.
pub open spec fn parsed(tokens: Seq<TokenView>, variables: Map<Seq<char>, Seq<char>>) -> Result<
    ExprView,
    ParseErrorView,
> {
    match line_at(tokens, variables, 0) {
        Ok((expr, _)) => Ok(expr),
        Err(failure) => Err(failure.error),
    }
}

/// Whether `result`, with the parser at `position` afterwards, is what
/// `expected` says.
pub open spec fn agrees(result: Result<Expr, ParseError>, position: int, expected: Parsed<ExprView>)
    -> bool {
    match expected {
        Ok((expr, next)) => result matches Ok(e) && e@ == expr && position == next,
        Err(failure) => result matches Err(e) && e@ == failure.error && position == failure.at,
    }
}

/// The command `name` with what `tail` gives as its arguments and
/// redirections.
pub open spec fn command_of(name: Seq<char>, tail: Parsed<(Seq<Seq<char>>, RedirectView)>)
    -> Parsed<ExprView> {
    match tail {
        Ok(((arguments, redirect), next)) => Ok(
            (ExprView::Cmd { name, arguments, redirect }, next),
        ),
        Err(error) => Err(error),
    }
}

/// A parser on a sequence of tokens.
pub struct Parser {
    tokens: Vec<Token>,
    position: usize,
    variables: Variables,
}

impl Parser {
    #[verifier::type_invariant]
    spec fn in_bounds(&self) -> bool {
        self.position <= self.tokens.len()
    }

    /// The tokens that the parser works on.
    pub closed spec fn tokens(&self) -> Seq<TokenView> {
        self.tokens.deep_view()
    }

    /// The number of tokens that have been read.
    pub closed spec fn position(&self) -> int {
        self.position as int
    }

    /// The variables whose values stand in for variable tokens.
    pub closed spec fn variables(&self) -> Map<Seq<char>, Seq<char>> {
        self.variables@
    }

    /// A parser at the start of `tokens`.
    pub fn new(tokens: Vec<Token>, variables: Variables) -> (parser: Parser)
        ensures
            parser.tokens() == tokens.deep_view(),
            parser.position() == 0,
            parser.variables() == variables@,
    {
        Parser { tokens, position: 0, variables }
    }

    /// Reads the next token.
    fn next(&mut self) -> (token: Option<Token>)
        ensures
            final(self).tokens == old(self).tokens,
            final(self).variables == old(self).variables,
            old(self).position < old(self).tokens.len() ==> token.deep_view() == Some(
                old(self).tokens()[old(self).position()],
            ) && final(self).position == old(self).position + 1,
            old(self).position >= old(self).tokens.len() ==> token is None && final(self).position
                == old(self).position,
    {
        proof {
            use_type_invariant(&*self);
        }
        if self.position < self.tokens.len() {
            let token = self.tokens[self.position].clone();
            self.position += 1;
            Some(token)
        } else {
            None
        }
    }

    /// Parses the tokens that have not been read yet as one command line.
    /// An error comes back as its message.
    pub fn parse(&mut self) -> (result: Result<Expr, String>)
        ensures
            match line_at(old(self).tokens(), old(self).variables(), old(self).position()) {
                Ok((expr, next)) => result matches Ok(e) && e@ == expr && final(self).position()
                    == next,
                Err(failure) => result matches Err(text) && text@ == failure.error.message()
                    && final(self).position() == failure.at,
            },
            final(self).tokens() == old(self).tokens(),
            final(self).variables() == old(self).variables(),
    {
        match self.try_parse() {
            Ok(expr) => Ok(expr),
            Err(error) => Err(error.message()),
        }
    }

    /// Parses the tokens that have not been read yet as one command line.
    pub fn try_parse(&mut self) -> (result: Result<Expr, ParseError>)
        ensures
            agrees(
                result,
                final(self).position(),
                line_at(old(self).tokens(), old(self).variables(), old(self).position()),
            ),
            final(self).tokens() == old(self).tokens(),
            final(self).variables() == old(self).variables(),
    {
        let expr = match self.parse_expr(0) {
            Ok(expr) => expr,
            Err(error) => {
                return Err(error);
            },
        };
        match self.peek() {
            Some(Token::EOL) => Ok(expr),
            Some(token) => Err(ParseError::TrailingToken(token.clone())),
            None => Ok(expr),
        }
    }

    /// The next token, which stays unread.
    fn peek(&self) -> (token: Option<&Token>)
        ensures
            self.position < self.tokens.len() ==> (token matches Some(t) && t@
                == self.tokens()[self.position()]),
            self.position >= self.tokens.len() ==> token is None,
    {
        if self.position < self.tokens.len() {
            Some(&self.tokens[self.position])
        } else {
            None
        }
    }

    fn parse_expr(&mut self, min_binding_power: u8) -> (result: Result<Expr, ParseError>)
        ensures
            agrees(
                result,
                final(self).position(),
                expr_at(
                    old(self).tokens(),
                    old(self).variables(),
                    old(self).position(),
                    min_binding_power,
                ),
            ),
            result is Ok ==> old(self).position < final(self).position,
            final(self).tokens == old(self).tokens,
            final(self).variables == old(self).variables,
        decreases old(self).tokens.len() - old(self).position, 1nat,
    {
        let ghost tokens = self.tokens();
        let ghost variables = self.variables();
        let ghost start = self.position();
        let ghost goal = expr_at(tokens, variables, start, min_binding_power);
        let mut lhs = match self.parse_atom() {
            Ok(atom) => atom,
            Err(error) => {
                return Err(error);
            },
        };
        proof {
            use_type_invariant(&*self);
        }
        loop
            invariant
                self.tokens == old(self).tokens,
                self.variables == old(self).variables,
                tokens == self.tokens(),
                variables == self.variables(),
                start == old(self).position,
                start < self.position <= self.tokens.len(),
                goal == expr_at(
                    old(self).tokens(),
                    old(self).variables(),
                    old(self).position(),
                    min_binding_power,
                ),
                goal == extended_at(tokens, variables, lhs@, self.position(), min_binding_power),
            ensures
                self.tokens == old(self).tokens,
                self.variables == old(self).variables,
                start < self.position,
                goal == Ok::<(ExprView, int), Failure>((lhs@, self.position())),
            decreases self.tokens.len() - self.position,
        {
            let op = match self.peek_operator() {
                Ok(op) => op,
                Err(_) => {
                    break ;
                },
            };
            let (left_bp, right_bp) = Self::get_binding_power(&op);
            if min_binding_power > left_bp {
                break ;
            }
            self.next();
            let rhs = match self.parse_expr(right_bp) {
                Ok(rhs) => rhs,
                Err(error) => {
                    return Err(error);
                },
            };
            lhs = Expr::Binary(Box::new(lhs), op, Box::new(rhs));
            proof {
                use_type_invariant(&*self);
            }
        }
        Ok(lhs)
    }

    fn parse_atom(&mut self) -> (result: Result<Expr, ParseError>)
        ensures
            agrees(
                result,
                final(self).position(),
                atom_at(old(self).tokens(), old(self).variables(), old(self).position()),
            ),
            result is Ok ==> old(self).position < final(self).position,
            final(self).tokens == old(self).tokens,
            final(self).variables == old(self).variables,
        decreases old(self).tokens.len() - old(self).position, 0nat,
    {
        match self.next() {
            Some(Token::Command(cmd_type)) => self.parse_command(cmd_type),
            Some(Token::If) => self.parse_if(),
            Some(token) => Err(ParseError::ExpectedCommand(Some(token))),
            None => Err(ParseError::ExpectedCommand(None)),
        }
    }

    /// The operator that the next token stands for, if it stands for one.
    fn peek_operator(&self) -> (result: Result<Operator, ()>)
        ensures
            result == match (if self.position < self.tokens.len() {
                operator_of(self.tokens()[self.position()])
            } else {
                None
            }) {
                Some(op) => Ok::<Operator, ()>(op),
                None => Err::<Operator, ()>(()),
            },
    {
        match self.peek() {
            Some(Token::Semicolon) => Ok(Operator::Next),
            Some(Token::Pipe) => Ok(Operator::Pipe),
            Some(Token::Ampersand) => Ok(Operator::NextIfSuccess),
            Some(Token::DoubleAmpersand) => Ok(Operator::LogicAnd),
            Some(Token::DoublePipe) => Ok(Operator::LogicOr),
            _ => Err(()),
        }
    }

    /// The left and the right binding power of an operator.
    pub fn get_binding_power(op: &Operator) -> (powers: (u8, u8))
        ensures
            powers == binding_power(*op),
    {
        match op {
            Operator::Next => (1, 2),
            Operator::NextIfSuccess => (3, 4),
            Operator::LogicOr => (3, 4),
            Operator::LogicAnd => (3, 4),
            Operator::Pipe => (5, 6),
        }
    }

    /// Reads the arguments and redirections of the command `cmd_type`.
    fn parse_command(&mut self, cmd_type: String) -> (result: Result<Expr, ParseError>)
        ensures
            agrees(
                result,
                final(self).position(),
                command_of(
                    cmd_type@,
                    command_tail(
                        old(self).tokens(),
                        old(self).variables(),
                        old(self).position(),
                        Seq::empty(),
                        RedirectView::none(),
                    ),
                ),
            ),
            result is Ok ==> old(self).position <= final(self).position,
            final(self).tokens == old(self).tokens,
            final(self).variables == old(self).variables,
    {
        let ghost tokens = self.tokens();
        let ghost variables = self.variables();
        let ghost goal = command_tail(
            tokens,
            variables,
            self.position(),
            Seq::empty(),
            RedirectView::none(),
        );
        let mut arguments: Vec<String> = Vec::new();
        let mut redirect = Redirect::new(None, None, None);
        assert(arguments.deep_view() == Seq::<Seq<char>>::empty());
        proof {
            use_type_invariant(&*self);
        }
        loop
            invariant
                self.tokens == old(self).tokens,
                self.variables == old(self).variables,
                tokens == self.tokens(),
                variables == self.variables(),
                old(self).position <= self.position <= self.tokens.len(),
                goal == command_tail(
                    old(self).tokens(),
                    old(self).variables(),
                    old(self).position(),
                    Seq::empty(),
                    RedirectView::none(),
                ),
                goal == command_tail(
                    tokens,
                    variables,
                    self.position(),
                    arguments.deep_view(),
                    redirect@,
                ),
            ensures
                self.tokens == old(self).tokens,
                self.variables == old(self).variables,
                old(self).position <= self.position,
                goal == Ok::<((Seq<Seq<char>>, RedirectView), int), Failure>(
                    ((arguments.deep_view(), redirect@), self.position()),
                ),
            decreases self.tokens.len() - self.position,
        {
            let ghost before = arguments.deep_view();
            match self.peek() {
                Some(Token::Command(arg)) => {
                    arguments.push(arg.clone());
                    assert(arguments.deep_view() == before.push(arg@));
                    self.position += 1;
                },
                Some(Token::Hyphen(arg)) => {
                    arguments.push(arg.clone());
                    assert(arguments.deep_view() == before.push(arg@));
                    self.position += 1;
                },
                Some(Token::DoubleHyphen(arg)) => {
                    arguments.push(arg.clone());
                    assert(arguments.deep_view() == before.push(arg@));
                    self.position += 1;
                },
                Some(Token::Argument(arg)) => {
                    arguments.push(arg.clone());
                    assert(arguments.deep_view() == before.push(arg@));
                    self.position += 1;
                },
                Some(Token::EnvVariable(name)) => {
                    match self.variables.get(name) {
                        Some(value) => {
                            arguments.push(value);
                            assert(arguments.deep_view() == before.push(value@));
                        },
                        None => {
                            return Err(ParseError::UndefinedVariable(name.clone()));
                        },
                    }
                    self.position += 1;
                },
                Some(Token::InputRedirect(filename)) => {
                    if redirect.stdin.is_some() {
                        return Err(ParseError::DuplicateRedirect(Stream::Input));
                    }
                    match Self::parse_redirect(filename) {
                        Ok(file) => {
                            redirect.stdin = Some(file);
                        },
                        Err(error) => {
                            return Err(error);
                        },
                    }
                    self.position += 1;
                },
                Some(Token::OutputRedirect(filename)) => {
                    if redirect.stdout.is_some() {
                        return Err(ParseError::DuplicateRedirect(Stream::Output));
                    }
                    match Self::parse_redirect(filename) {
                        Ok(file) => {
                            redirect.stdout = Some(file);
                        },
                        Err(error) => {
                            return Err(error);
                        },
                    }
                    self.position += 1;
                },
                Some(Token::ErrorRedirect(filename)) => {
                    if redirect.stderr.is_some() {
                        return Err(ParseError::DuplicateRedirect(Stream::Error));
                    }
                    match Self::parse_redirect(filename) {
                        Ok(file) => {
                            redirect.stderr = Some(file);
                        },
                        Err(error) => {
                            return Err(error);
                        },
                    }
                    self.position += 1;
                },
                _ => {
                    break ;
                },
            }
        }
        Ok(Expr::Cmd { name: cmd_type, arguments, redirect })
    }

    /// Reads what follows the word `if`.
    fn parse_if(&mut self) -> (result: Result<Expr, ParseError>)
        ensures
            agrees(
                result,
                final(self).position(),
                if_at(old(self).tokens(), old(self).variables(), old(self).position()),
            ),
            result is Ok ==> old(self).position < final(self).position,
            final(self).tokens == old(self).tokens,
            final(self).variables == old(self).variables,
        decreases old(self).tokens.len() - old(self).position, 2nat,
    {
        let cond = match self.parse_expr(0) {
            Ok(cond) => cond,
            Err(error) => {
                return Err(error);
            },
        };
        let allowed = vec![Token::Then];
        assert(allowed.deep_view() == after_condition());
        match self.expect(allowed) {
            Ok(_) => {},
            Err(error) => {
                return Err(error);
            },
        }
        let then_expr = match self.parse_expr(0) {
            Ok(then_expr) => then_expr,
            Err(error) => {
                return Err(error);
            },
        };
        let allowed = vec![Token::Else, Token::DoubleSemicolon, Token::EOL];
        assert(allowed.deep_view() == after_then());
        let closing = match self.expect(allowed) {
            Ok(closing) => closing,
            Err(error) => {
                return Err(error);
            },
        };
        match closing {
            Token::Else => {
                let else_expr = match self.parse_expr(0) {
                    Ok(else_expr) => else_expr,
                    Err(error) => {
                        return Err(error);
                    },
                };
                let allowed = vec![Token::DoubleSemicolon, Token::EOL];
                assert(allowed.deep_view() == after_else());
                match self.expect(allowed) {
                    Ok(_) => {},
                    Err(error) => {
                        return Err(error);
                    },
                }
                Ok(Expr::IfElse(Box::new(cond), Box::new(then_expr), Box::new(else_expr)))
            },
            _ => Ok(Expr::If(Box::new(cond), Box::new(then_expr))),
        }
    }

    /// The name of the file of a redirection, which must not be empty.
    pub fn parse_redirect(filename: &String) -> (result: Result<String, ParseError>)
        ensures
            filename@.len() == 0 ==> (result matches Err(e) && e@ == ParseErrorView::MissingFile),
            filename@.len() > 0 ==> (result matches Ok(file) && file@ == filename@),
    {
        if filename.as_str().is_empty() {
            return Err(ParseError::MissingFile);
        }
        Ok(filename.clone())
    }

    /// Reads the next token, which has to be one of `should`. An end of line
    /// is accepted and stays unread.
    fn expect(&mut self, should: Vec<Token>) -> (result: Result<Token, ParseError>)
        ensures
            match expect_at(old(self).tokens(), old(self).position(), should.deep_view()) {
                Ok((token, next)) => result matches Ok(t) && t@ == token && final(self).position
                    == next,
                Err(failure) => result matches Err(e) && e@ == failure.error && final(self).position
                    == failure.at,
            },
            result is Ok ==> old(self).position <= final(self).position,
            final(self).tokens == old(self).tokens,
            final(self).variables == old(self).variables,
    {
        match self.peek() {
            Some(is) => {
                if contains_token(&should, is) {
                    if is.same(&Token::EOL) {
                        Ok(Token::EOL)
                    } else {
                        let token = is.clone();
                        self.position += 1;
                        Ok(token)
                    }
                } else {
                    Err(ParseError::Expected(should, is.clone()))
                }
            },
            None => Err(ParseError::UnexpectedEnd),
        }
    }
}

} // verus!
