//! The expression tree that the parser builds and the interpreter walks.

use vstd::prelude::*;

verus! {

/// The binary operators of the shell language.
#[derive(Debug, PartialEq, Eq, Clone, Copy, Structural)]
pub enum Operator {
    /// `|`: the output of the left side is the input of the right side.
    Pipe,
    /// `;`: the right side runs after the left side.
    Next,
    /// `&`: the right side runs only if the left side succeeded.
    NextIfSuccess,
    /// `&&`: both sides run; the result succeeds if both did.
    LogicAnd,
    /// `||`: both sides run; the result succeeds if one of them did.
    LogicOr,
}

/// The files that a command's standard streams are attached to, if any.
#[derive(Debug, PartialEq, Eq)]
pub struct Redirect {
    pub stdin: Option<String>,
    pub stdout: Option<String>,
    pub stderr: Option<String>,
}

/// The mathematical value of a [`Redirect`].
pub ghost struct RedirectView {
    pub stdin: Option<Seq<char>>,
    pub stdout: Option<Seq<char>>,
    pub stderr: Option<Seq<char>>,
}

impl RedirectView {
    /// No stream is redirected.
    pub open spec fn none() -> RedirectView {
        RedirectView { stdin: None, stdout: None, stderr: None }
    }
}

impl View for Redirect {
    type V = RedirectView;

    open spec fn view(&self) -> RedirectView {
        RedirectView {
            stdin: self.stdin.deep_view(),
            stdout: self.stdout.deep_view(),
            stderr: self.stderr.deep_view(),
        }
    }
}

impl DeepView for Redirect {
    type V = RedirectView;

    open spec fn deep_view(&self) -> RedirectView {
        self@
    }
}

impl Redirect {
    pub fn new(stdin: Option<String>, stdout: Option<String>, stderr: Option<String>) -> (r:
        Redirect)
        ensures
            r.stdin == stdin,
            r.stdout == stdout,
            r.stderr == stderr,
    {
        Redirect { stdin, stdout, stderr }
    }
}

/// A parsed command line.
#[derive(Debug, PartialEq, Eq)]
pub enum Expr {
    /// A command with its arguments, in the order in which they were
    /// written, and its redirections.
    Cmd { name: String, arguments: Vec<String>, redirect: Redirect },
    /// Two expressions joined by an operator.
    Binary(Box<Expr>, Operator, Box<Expr>),
    /// A condition and the expression that runs if it succeeds.
    If(Box<Expr>, Box<Expr>),
    /// A condition, the expression that runs if it succeeds and the one
    /// that runs if it does not.
    IfElse(Box<Expr>, Box<Expr>, Box<Expr>),
}

/// The mathematical value of an [`Expr`].
pub ghost enum ExprView {
    Cmd { name: Seq<char>, arguments: Seq<Seq<char>>, redirect: RedirectView },
    Binary(Box<ExprView>, Operator, Box<ExprView>),
    If(Box<ExprView>, Box<ExprView>),
    IfElse(Box<ExprView>, Box<ExprView>, Box<ExprView>),
}

impl Expr {
    /// The mathematical value of the tree.
    pub open spec fn model(&self) -> ExprView
        decreases self,
    {
        match self {
            Expr::Cmd { name, arguments, redirect } => ExprView::Cmd {
                name: name@,
                arguments: arguments.deep_view(),
                redirect: redirect@,
            },
            Expr::Binary(left, op, right) => ExprView::Binary(
                Box::new(left.model()),
                *op,
                Box::new(right.model()),
            ),
            Expr::If(condition, then) => ExprView::If(
                Box::new(condition.model()),
                Box::new(then.model()),
            ),
            Expr::IfElse(condition, then, otherwise) => ExprView::IfElse(
                Box::new(condition.model()),
                Box::new(then.model()),
                Box::new(otherwise.model()),
            ),
        }
    }
}

impl View for Expr {
    type V = ExprView;

    open spec fn view(&self) -> ExprView {
        self.model()
    }
}

impl DeepView for Expr {
    type V = ExprView;

    open spec fn deep_view(&self) -> ExprView {
        self@
    }
}

} // verus!
