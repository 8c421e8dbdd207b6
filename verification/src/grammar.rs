//! Laws of the parser: what holds of every sequence of tokens.

use vstd::prelude::*;
use crate::ast::{ExprView, RedirectView};
use crate::parser::{
    after_condition,
    after_then,
    atom_at,
    binding_power,
    command_tail,
    expect_at,
    expr_at,
    extended_at,
    if_at,
    operator_of,
    parsed,
    Failure,
    ParseErrorView,
    Stream,
};
use crate::token::TokenView;

verus! {

/// The arguments and redirections of a command end at or behind the
/// position at which they start, within the tokens.
pub proof fn lemma_command_tail_advances(
    tokens: Seq<TokenView>,
    variables: Map<Seq<char>, Seq<char>>,
    pos: int,
    arguments: Seq<Seq<char>>,
    redirect: RedirectView,
)
    requires
        0 <= pos <= tokens.len(),
    ensures
        command_tail(tokens, variables, pos, arguments, redirect) matches Ok((_, next)) ==> pos
            <= next <= tokens.len(),
        command_tail(tokens, variables, pos, arguments, redirect) matches Err(failure) ==> pos
            <= failure.at < tokens.len(),
    decreases tokens.len() - pos,
{
    if pos < tokens.len() {
        match tokens[pos] {
            TokenView::Command(text)
            | TokenView::Hyphen(text)
            | TokenView::DoubleHyphen(text)
            | TokenView::Argument(text) => {
                lemma_command_tail_advances(
                    tokens,
                    variables,
                    pos + 1,
                    arguments.push(text),
                    redirect,
                );
            },
            TokenView::EnvVariable(name) => {
                if variables.dom().contains(name) {
                    lemma_command_tail_advances(
                        tokens,
                        variables,
                        pos + 1,
                        arguments.push(variables[name]),
                        redirect,
                    );
                }
            },
            TokenView::InputRedirect(file) => {
                lemma_command_tail_advances(
                    tokens,
                    variables,
                    pos + 1,
                    arguments,
                    RedirectView { stdin: Some(file), ..redirect },
                );
            },
            TokenView::OutputRedirect(file) => {
                lemma_command_tail_advances(
                    tokens,
                    variables,
                    pos + 1,
                    arguments,
                    RedirectView { stdout: Some(file), ..redirect },
                );
            },
            TokenView::ErrorRedirect(file) => {
                lemma_command_tail_advances(
                    tokens,
                    variables,
                    pos + 1,
                    arguments,
                    RedirectView { stderr: Some(file), ..redirect },
                );
            },
            _ => {},
        }
    }
}

/// Every expression that is parsed holds at least one token and ends within
/// the tokens. So the parser never stands still, and the positions that the
/// definitions of the grammar compare are always in order. A parse that fails
/// stops within the tokens too, at or behind the position at which it
/// started.
pub proof fn lemma_expr_advances(
    tokens: Seq<TokenView>,
    variables: Map<Seq<char>, Seq<char>>,
    pos: int,
    min_power: u8,
)
    requires
        0 <= pos <= tokens.len(),
    ensures
        expr_at(tokens, variables, pos, min_power) matches Ok((_, next)) ==> pos < next
            <= tokens.len(),
        atom_at(tokens, variables, pos) matches Ok((_, next)) ==> pos < next <= tokens.len(),
        expr_at(tokens, variables, pos, min_power) matches Err(failure) ==> pos <= failure.at
            <= tokens.len(),
        atom_at(tokens, variables, pos) matches Err(failure) ==> pos <= failure.at
            <= tokens.len(),
    decreases tokens.len() - pos, 1nat,
{
    lemma_atom_advances(tokens, variables, pos);
    if let Ok((left, next)) = atom_at(tokens, variables, pos) {
        lemma_extended_advances(tokens, variables, left, next, min_power);
    }
}

/// [`lemma_expr_advances`] for a command or an `if`.
proof fn lemma_atom_advances(
    tokens: Seq<TokenView>,
    variables: Map<Seq<char>, Seq<char>>,
    pos: int,
)
    requires
        0 <= pos <= tokens.len(),
    ensures
        atom_at(tokens, variables, pos) matches Ok((_, next)) ==> pos < next <= tokens.len(),
        atom_at(tokens, variables, pos) matches Err(failure) ==> pos <= failure.at
            <= tokens.len(),
    decreases tokens.len() - pos, 0nat,
{
    if pos < tokens.len() {
        match tokens[pos] {
            TokenView::Command(name) => {
                lemma_command_tail_advances(
                    tokens,
                    variables,
                    pos + 1,
                    Seq::empty(),
                    RedirectView::none(),
                );
            },
            TokenView::If => {
                lemma_if_advances(tokens, variables, pos + 1);
            },
            _ => {},
        }
    }
}

/// [`lemma_expr_advances`] for the operators behind an expression.
proof fn lemma_extended_advances(
    tokens: Seq<TokenView>,
    variables: Map<Seq<char>, Seq<char>>,
    left: ExprView,
    pos: int,
    min_power: u8,
)
    requires
        0 <= pos <= tokens.len(),
    ensures
        extended_at(tokens, variables, left, pos, min_power) matches Ok((_, next)) ==> pos <= next
            <= tokens.len(),
        extended_at(tokens, variables, left, pos, min_power) matches Err(failure) ==> pos
            <= failure.at <= tokens.len(),
    decreases tokens.len() - pos, 3nat,
{
    if pos < tokens.len() {
        if let Some(op) = operator_of(tokens[pos]) {
            if min_power <= binding_power(op).0 {
                lemma_expr_advances(tokens, variables, pos + 1, binding_power(op).1);
                if let Ok((right, next)) = expr_at(
                    tokens,
                    variables,
                    pos + 1,
                    binding_power(op).1,
                ) {
                    lemma_extended_advances(
                        tokens,
                        variables,
                        ExprView::Binary(Box::new(left), op, Box::new(right)),
                        next,
                        min_power,
                    );
                }
            }
        }
    }
}

/// [`lemma_expr_advances`] for what follows the word `if`.
proof fn lemma_if_advances(tokens: Seq<TokenView>, variables: Map<Seq<char>, Seq<char>>, pos: int)
    requires
        0 <= pos <= tokens.len(),
    ensures
        if_at(tokens, variables, pos) matches Ok((_, next)) ==> pos < next <= tokens.len(),
        if_at(tokens, variables, pos) matches Err(failure) ==> pos <= failure.at <= tokens.len(),
    decreases tokens.len() - pos, 2nat,
{
    lemma_expr_advances(tokens, variables, pos, 0);
    if let Ok((condition, after1)) = expr_at(tokens, variables, pos, 0) {
        if let Ok((_, start2)) = expect_at(tokens, after1, after_condition()) {
            lemma_expr_advances(tokens, variables, start2, 0);
            if let Ok((then, after2)) = expr_at(tokens, variables, start2, 0) {
                if let Ok((closing, start3)) = expect_at(
                    tokens,
                    after2,
                    after_then(),
                ) {
                    if closing == TokenView::Else {
                        lemma_expr_advances(tokens, variables, start3, 0);
                    }
                }
            }
        }
    }
}

/// The tokens for a command with plain arguments: the name of the command,
/// then one argument token for each text.
pub open spec fn plain_command(name: Seq<char>, texts: Seq<Seq<char>>) -> Seq<TokenView> {
    seq![TokenView::Command(name)] + Seq::new(texts.len(), |i: int| TokenView::Argument(texts[i]))
}

/// The arguments of a command come out of the parser as they went in: a
/// command that is followed by plain arguments and nothing else is parsed as
/// that command with the texts of the arguments in their order and without
/// redirections.
pub proof fn lemma_arguments_keep_their_order(
    name: Seq<char>,
    texts: Seq<Seq<char>>,
    variables: Map<Seq<char>, Seq<char>>,
)
    ensures
        parsed(plain_command(name, texts), variables) == Ok::<ExprView, ParseErrorView>(
            ExprView::Cmd { name, arguments: texts, redirect: RedirectView::none() },
        ),
{
    lemma_plain_tail(name, texts, variables, 1, Seq::empty());
    assert(Seq::<Seq<char>>::empty() + texts.skip(0) == texts);
}

/// The arguments of [`plain_command`] from `pos` on are added to those that
/// were read before.
proof fn lemma_plain_tail(
    name: Seq<char>,
    texts: Seq<Seq<char>>,
    variables: Map<Seq<char>, Seq<char>>,
    pos: int,
    arguments: Seq<Seq<char>>,
)
    requires
        1 <= pos <= texts.len() + 1,
    ensures
        command_tail(plain_command(name, texts), variables, pos, arguments, RedirectView::none())
            == Ok::<((Seq<Seq<char>>, RedirectView), int), Failure>(
            ((arguments + texts.skip(pos - 1), RedirectView::none()), texts.len() as int + 1),
        ),
    decreases texts.len() + 1 - pos,
{
    let tokens = plain_command(name, texts);
    if pos < tokens.len() {
        lemma_plain_tail(name, texts, variables, pos + 1, arguments.push(texts[pos - 1]));
        assert(arguments.push(texts[pos - 1]) + texts.skip(pos) == arguments + texts.skip(pos - 1));
    }
}

/// The redirection token for `stream` with the file `file`.
pub open spec fn redirection(stream: Stream, file: Seq<char>) -> TokenView {
    match stream {
        Stream::Input => TokenView::InputRedirect(file),
        Stream::Output => TokenView::OutputRedirect(file),
        Stream::Error => TokenView::ErrorRedirect(file),
    }
}

/// The file that `redirect` holds for `stream`.
pub open spec fn target(redirect: RedirectView, stream: Stream) -> Option<Seq<char>> {
    match stream {
        Stream::Input => redirect.stdin,
        Stream::Output => redirect.stdout,
        Stream::Error => redirect.stderr,
    }
}

/// A command redirects each stream once at most, and to a file with a name:
/// where a redirection follows for a stream that is redirected already, the
/// command is an error, whatever comes behind; so is a first redirection
/// without the name of a file.
pub proof fn lemma_redirect_once(
    tokens: Seq<TokenView>,
    variables: Map<Seq<char>, Seq<char>>,
    pos: int,
    arguments: Seq<Seq<char>>,
    redirect: RedirectView,
    stream: Stream,
    file: Seq<char>,
)
    requires
        0 <= pos < tokens.len(),
        tokens[pos] == redirection(stream, file),
    ensures
        target(redirect, stream) is Some ==> command_tail(
            tokens,
            variables,
            pos,
            arguments,
            redirect,
        ) == Err::<((Seq<Seq<char>>, RedirectView), int), Failure>(
            Failure { error: ParseErrorView::DuplicateRedirect(stream), at: pos },
        ),
        target(redirect, stream) is None && file.len() == 0 ==> command_tail(
            tokens,
            variables,
            pos,
            arguments,
            redirect,
        ) == Err::<((Seq<Seq<char>>, RedirectView), int), Failure>(
            Failure { error: ParseErrorView::MissingFile, at: pos },
        ),
{
}

/// A command with two redirections of one stream is an error, whatever the
/// files are and whatever follows.
pub proof fn lemma_second_redirect(
    name: Seq<char>,
    stream: Stream,
    first: Seq<char>,
    second: Seq<char>,
    rest: Seq<TokenView>,
    variables: Map<Seq<char>, Seq<char>>,
)
    requires
        first.len() > 0,
    ensures
        parsed(
            seq![TokenView::Command(name), redirection(stream, first), redirection(stream, second)]
                + rest,
            variables,
        ) == Err::<ExprView, ParseErrorView>(ParseErrorView::DuplicateRedirect(stream)),
{
    let tokens = seq![
        TokenView::Command(name),
        redirection(stream, first),
        redirection(stream, second),
    ] + rest;
    let start = RedirectView::none();
    let once = match stream {
        Stream::Input => RedirectView { stdin: Some(first), ..start },
        Stream::Output => RedirectView { stdout: Some(first), ..start },
        Stream::Error => RedirectView { stderr: Some(first), ..start },
    };
    lemma_redirect_once(tokens, variables, 2, Seq::empty(), once, stream, second);
}

/// How strongly the expression is held together at its top: the left
/// binding power of its operator, or more than any operator has for a
/// command and for an `if`.
pub open spec fn top_power(expr: ExprView) -> int {
    match expr {
        ExprView::Binary(_, op, _) => binding_power(op).0 as int,
        _ => 255,
    }
}

/// Whether the operators of the tree are grouped by their binding powers:
/// under every operator, the left side is held together at least as
/// strongly as the operator binds on its left, and the right side at least
/// as strongly as it binds on its right, which is more. So a pipe never has
/// a sequence as one of its sides, and operators of one band have their
/// like on the left side only.
pub open spec fn grouped(expr: ExprView) -> bool
    decreases expr,
{
    match expr {
        ExprView::Cmd { .. } => true,
        ExprView::Binary(left, op, right) => {
            &&& grouped(*left)
            &&& grouped(*right)
            &&& top_power(*left) >= binding_power(op).0
            &&& top_power(*right) >= binding_power(op).1
        },
        ExprView::If(condition, then) => grouped(*condition) && grouped(*then),
        ExprView::IfElse(condition, then, otherwise) => grouped(*condition) && grouped(*then)
            && grouped(*otherwise),
    }
}

/// Whether no operator that binds with `min_power` or more on its left
/// stands at `pos`.
pub open spec fn stops_at(tokens: Seq<TokenView>, pos: int, min_power: int) -> bool {
    0 <= pos < tokens.len() ==> (operator_of(tokens[pos]) matches Some(op) ==> binding_power(op).0
        < min_power)
}

/// [`lemma_expr_grouped`] for a command or an `if`.
proof fn lemma_atom_grouped(
    tokens: Seq<TokenView>,
    variables: Map<Seq<char>, Seq<char>>,
    pos: int,
)
    requires
        0 <= pos <= tokens.len(),
    ensures
        atom_at(tokens, variables, pos) matches Ok((expr, _)) ==> grouped(expr) && top_power(expr)
            == 255,
    decreases tokens.len() - pos, 0nat,
{
    if pos < tokens.len() && tokens[pos] == TokenView::If {
        lemma_if_grouped(tokens, variables, pos + 1);
    }
}

/// [`lemma_expr_grouped`] for what follows the word `if`.
proof fn lemma_if_grouped(tokens: Seq<TokenView>, variables: Map<Seq<char>, Seq<char>>, pos: int)
    requires
        0 <= pos <= tokens.len(),
    ensures
        if_at(tokens, variables, pos) matches Ok((expr, _)) ==> grouped(expr) && top_power(expr)
            == 255,
    decreases tokens.len() - pos, 2nat,
{
    lemma_expr_grouped(tokens, variables, pos, 0);
    lemma_expr_advances(tokens, variables, pos, 0);
    if let Ok((condition, after1)) = expr_at(tokens, variables, pos, 0) {
        if let Ok((_, start2)) = expect_at(tokens, after1, after_condition()) {
            lemma_expr_grouped(tokens, variables, start2, 0);
            lemma_expr_advances(tokens, variables, start2, 0);
            if let Ok((then, after2)) = expr_at(tokens, variables, start2, 0) {
                if let Ok((closing, start3)) = expect_at(
                    tokens,
                    after2,
                    after_then(),
                ) {
                    if closing == TokenView::Else {
                        lemma_expr_grouped(tokens, variables, start3, 0);
                    }
                }
            }
        }
    }
}

/// [`lemma_expr_grouped`] for the operators behind an expression.
proof fn lemma_extended_grouped(
    tokens: Seq<TokenView>,
    variables: Map<Seq<char>, Seq<char>>,
    left: ExprView,
    pos: int,
    min_power: u8,
)
    requires
        0 <= pos <= tokens.len(),
        grouped(left),
        top_power(left) >= min_power,
        left matches ExprView::Binary(_, op, _) ==> stops_at(tokens, pos, binding_power(op).1 as int),
    ensures
        extended_at(tokens, variables, left, pos, min_power) matches Ok((expr, next)) ==> grouped(
            expr,
        ) && top_power(expr) >= min_power && stops_at(tokens, next, min_power as int),
    decreases tokens.len() - pos, 3nat,
{
    if pos < tokens.len() {
        if let Some(op) = operator_of(tokens[pos]) {
            if min_power <= binding_power(op).0 {
                lemma_expr_grouped(tokens, variables, pos + 1, binding_power(op).1);
                lemma_expr_advances(tokens, variables, pos + 1, binding_power(op).1);
                if let Ok((right, next)) = expr_at(
                    tokens,
                    variables,
                    pos + 1,
                    binding_power(op).1,
                ) {
                    lemma_extended_grouped(
                        tokens,
                        variables,
                        ExprView::Binary(Box::new(left), op, Box::new(right)),
                        next,
                        min_power,
                    );
                }
            }
        }
    }
}

/// Every expression that is parsed is grouped by the binding powers of its
/// operators, is held together at least as strongly as was asked for, and
/// ends where no operator of that power follows.
pub proof fn lemma_expr_grouped(
    tokens: Seq<TokenView>,
    variables: Map<Seq<char>, Seq<char>>,
    pos: int,
    min_power: u8,
)
    requires
        0 <= pos <= tokens.len(),
    ensures
        expr_at(tokens, variables, pos, min_power) matches Ok((expr, next)) ==> grouped(expr)
            && top_power(expr) >= min_power && stops_at(tokens, next, min_power as int),
    decreases tokens.len() - pos, 1nat,
{
    lemma_atom_grouped(tokens, variables, pos);
    lemma_expr_advances(tokens, variables, pos, min_power);
    if let Ok((left, next)) = atom_at(tokens, variables, pos) {
        lemma_extended_grouped(tokens, variables, left, next, min_power);
    }
}

/// The tree of every command line is grouped by the binding powers of its
/// operators: the pipe binds more strongly than `&`, `&&` and `||`, these
/// more strongly than `;`, and operators that bind alike group from the
/// left.
pub proof fn lemma_precedence(tokens: Seq<TokenView>, variables: Map<Seq<char>, Seq<char>>)
    ensures
        parsed(tokens, variables) matches Ok(expr) ==> grouped(expr),
{
    lemma_expr_grouped(tokens, variables, 0, 0);
}

} // verus!
