//! A small command-line shell, verified with Verus.
//!
//! A line of input goes through three stages:
//!
//! - [`lexer`] cuts it into the tokens of [`token`];
//! - [`parser`] builds the expression tree of [`ast`] from the tokens, by
//!   precedence climbing over `;`, `&`, `&&`, `||` and `|`, with `if`,
//!   `then` and `else`; [`grammar`] holds what is proved of every parse;
//! - [`interpreter`] evaluates the tree. It spawns no process itself: it
//!   asks for one action of [`host`] after the other and is told how each
//!   went. [`semantics`] says what an evaluation is, and [`replay`] holds
//!   what is proved of every evaluation.
//!
//! [`variables`] is the table from which the parser takes the values of
//! variables, [`text`] holds the operations on text that the others share,
//! and [`utils`] and [`cat`] hold what the programs that come with the shell
//! compute.

pub mod ast;
pub mod cat;
pub mod grammar;
pub mod host;
pub mod interpreter;
pub mod lexer;
pub mod parser;
pub mod replay;
pub mod semantics;
pub mod text;
pub mod token;
pub mod utils;
pub mod variables;
