//! The lexer: it cuts a line of input into tokens.

use vstd::prelude::*;
use crate::text::{chars_of, lowercase, lowered, string_of};
use crate::token::{Token, TokenView};
use crate::utils::{contains_text, is_file, program_file};

verus! {

/// Whether `c` can stand inside a word.
pub open spec fn word_member(c: char) -> bool {
    !(c == ' ' || c == '>' || c == '<' || c == '&' || c == '|' || c == '=' || c == '"' || c == '$'
        || c == '-' || c == ';' || c == '\r' || c == '\n')
}

/// The index at which the run of word characters that starts at `pos` ends.
pub open spec fn word_end(input: Seq<char>, pos: int) -> int
    decreases input.len() - pos,
{
    if 0 <= pos < input.len() && word_member(input[pos]) {
        word_end(input, pos + 1)
    } else {
        pos
    }
}

/// The index at which the run of blanks that starts at `pos` ends.
pub open spec fn blanks_end(input: Seq<char>, pos: int) -> int
    decreases input.len() - pos,
{
    if 0 <= pos < input.len() && input[pos] == ' ' {
        blanks_end(input, pos + 1)
    } else {
        pos
    }
}

/// What the lexer reads at the start of the input before it knows which
/// words name a program.
pub ghost enum Lexeme {
    /// A token that no lookup can change.
    Symbol(TokenView),
    /// A word as it is written, not yet in lower case.
    Word(Seq<char>),
}

/// The text after a redirection sign whose last character stands at
/// `sign_end - 1`: blanks are skipped, then a word is read.
pub open spec fn redirect_target(input: Seq<char>, sign_end: int) -> (Seq<char>, int) {
    let start = blanks_end(input, sign_end);
    let end = word_end(input, start);
    (input.subrange(start, end), end)
}

/// The lexeme at the start of `input` and the number of characters it
/// takes, or `None` for an empty input.
pub open spec fn scan(input: Seq<char>) -> Option<(Lexeme, int)> {
    if input.len() == 0 {
        None
    } else {
        let c = input[0];
        let follows = |d: char| input.len() > 1 && input[1] == d;
        Some(
            if c == '&' {
                if follows('&') {
                    (Lexeme::Symbol(TokenView::DoubleAmpersand), 2)
                } else {
                    (Lexeme::Symbol(TokenView::Ampersand), 1)
                }
            } else if c == '|' {
                if follows('|') {
                    (Lexeme::Symbol(TokenView::DoublePipe), 2)
                } else {
                    (Lexeme::Symbol(TokenView::Pipe), 1)
                }
            } else if c == ';' {
                if follows(';') {
                    (Lexeme::Symbol(TokenView::DoubleSemicolon), 2)
                } else {
                    (Lexeme::Symbol(TokenView::Semicolon), 1)
                }
            } else if c == '$' {
                let end = word_end(input, 1);
                (Lexeme::Symbol(TokenView::EnvVariable(input.subrange(1, end))), end)
            } else if c == '-' {
                let end = if follows('-') {
                    word_end(input, 2)
                } else {
                    word_end(input, 1)
                };
                if follows('-') {
                    (Lexeme::Symbol(TokenView::DoubleHyphen(input.subrange(0, end))), end)
                } else {
                    (Lexeme::Symbol(TokenView::Hyphen(input.subrange(0, end))), end)
                }
            } else if c == '\n' {
                (Lexeme::Symbol(TokenView::EOL), 1)
            } else if c == '\r' {
                if follows('\n') {
                    (Lexeme::Symbol(TokenView::EOL), 2)
                } else {
                    (Lexeme::Symbol(TokenView::EOL), 1)
                }
            } else if c == '<' {
                let (name, end) = redirect_target(input, 1);
                (Lexeme::Symbol(TokenView::InputRedirect(name)), end)
            } else if c == '>' {
                let (name, end) = redirect_target(input, 1);
                (Lexeme::Symbol(TokenView::OutputRedirect(name)), end)
            } else if c == '1' && follows('>') {
                let (name, end) = redirect_target(input, 2);
                (Lexeme::Symbol(TokenView::OutputRedirect(name)), end)
            } else if c == '2' && follows('>') {
                let (name, end) = redirect_target(input, 2);
                (Lexeme::Symbol(TokenView::ErrorRedirect(name)), end)
            } else {
                let end = word_end(input, 1);
                (Lexeme::Word(input.subrange(0, end)), end)
            },
        )
    }
}

/// Whether the lower-case word `w` names a command that the shell runs
/// itself.
pub open spec fn is_builtin(w: Seq<char>) -> bool {
    w == "cd"@ || w == "exit"@ || w == "set"@ || w == "clear"@
}

/// The token for the word `word`, where `found` says whether a program of
/// that name exists: a keyword, a command or a plain argument. The word is
/// taken in lower case.
pub open spec fn word_token(word: Seq<char>, found: bool) -> TokenView {
    let w = lowered(word);
    if w == "if"@ {
        TokenView::If
    } else if w == "then"@ {
        TokenView::Then
    } else if w == "else"@ {
        TokenView::Else
    } else if is_builtin(w) || found {
        TokenView::Command(w)
    } else {
        TokenView::Argument(w)
    }
}

/// The first token of `input` and what is left of the input after it and
/// the blanks behind it, where `found` is the answer to the lookup of the
/// word, if the token is one.
pub open spec fn first_token(input: Seq<char>, found: bool) -> Option<(TokenView, Seq<char>)> {
    match scan(input) {
        None => None,
        Some((lexeme, end)) => {
            let token = match lexeme {
                Lexeme::Symbol(t) => t,
                Lexeme::Word(w) => word_token(w, found),
            };
            Some((token, input.skip(blanks_end(input, end))))
        },
    }
}

/// Whether `found` can be the answer to the lookup of the word at the start
/// of `input`. With a list of known programs the answer is fixed: the word,
/// in lower case, is in the list. Without one the file system decides, and
/// both answers are possible.
pub open spec fn may_answer(known: Option<Seq<Seq<char>>>, input: Seq<char>, found: bool) -> bool {
    match (known, scan(input)) {
        (Some(names), Some((Lexeme::Word(w), _))) => found == names.contains(lowered(w)),
        _ => true,
    }
}

/// Whether `tokens` is a possible result of cutting `input` into tokens.
pub open spec fn tokenized(
    known: Option<Seq<Seq<char>>>,
    input: Seq<char>,
    tokens: Seq<TokenView>,
) -> bool
    decreases input.len(),
{
    if input.len() == 0 {
        tokens.len() == 0
    } else {
        tokens.len() > 0 && exists|found: bool|
            {
                &&& may_answer(known, input, found)
                &&& #[trigger] first_token(input, found) matches Some((token, rest))
                &&& token == tokens[0]
                &&& rest.len() < input.len()
                &&& tokenized(known, rest, tokens.drop_first())
            }
    }
}

/// The position where a word or a run of blanks ends is the same whether
/// it is counted in the whole input or in what is left of it.
proof fn lemma_ends_shift(input: Seq<char>, k: int, j: int)
    requires
        0 <= k,
        0 <= j,
        k + j <= input.len(),
    ensures
        word_end(input.skip(k), j) + k == word_end(input, k + j),
        blanks_end(input.skip(k), j) + k == blanks_end(input, k + j),
        k + j <= word_end(input, k + j) <= input.len(),
        k + j <= blanks_end(input, k + j) <= input.len(),
    decreases input.len() - (k + j),
{
    if k + j < input.len() {
        lemma_ends_shift(input, k, j + 1);
    }
}

/// Every token takes at least one character of the input: what is left
/// after a token is shorter than what was there.
pub proof fn lemma_first_token_shortens(input: Seq<char>, found: bool)
    ensures
        first_token(input, found) matches Some((_, rest)) ==> rest.len() < input.len(),
{
    if input.len() > 0 {
        if input.len() > 1 {
            lemma_ends_shift(input, 2, 0);
            lemma_ends_shift(input, blanks_end(input, 2), 0);
        }
        let end = scan(input).unwrap().1;
        lemma_ends_shift(input, end, 0);
    }
}

/// With a list of known programs the tokens of an input are fixed: two
/// sequences of tokens that the same input can be cut into are the same.
pub proof fn lemma_tokens_fixed(
    names: Seq<Seq<char>>,
    input: Seq<char>,
    first: Seq<TokenView>,
    second: Seq<TokenView>,
)
    requires
        tokenized(Some(names), input, first),
        tokenized(Some(names), input, second),
    ensures
        first == second,
    decreases input.len(),
{
    if input.len() > 0 {
        let found1 = choose|found: bool|
            {
                &&& may_answer(Some(names), input, found)
                &&& #[trigger] first_token(input, found) matches Some((token, rest))
                &&& token == first[0]
                &&& rest.len() < input.len()
                &&& tokenized(Some(names), rest, first.drop_first())
            };
        let found2 = choose|found: bool|
            {
                &&& may_answer(Some(names), input, found)
                &&& #[trigger] first_token(input, found) matches Some((token, rest))
                &&& token == second[0]
                &&& rest.len() < input.len()
                &&& tokenized(Some(names), rest, second.drop_first())
            };
        assert(first_token(input, found1) == first_token(input, found2));
        let rest = first_token(input, found1).unwrap().1;
        lemma_tokens_fixed(names, rest, first.drop_first(), second.drop_first());
        assert(first == seq![first[0]] + first.drop_first());
        assert(second == seq![second[0]] + second.drop_first());
    } else {
        assert(first == second);
    }
}

/// What the exec scanner hands back: a finished token or a word that still
/// has to be looked up.
enum Scanned {
    Symbol(Token),
    Word(String),
}

impl Scanned {
    spec fn lexeme(self) -> Lexeme {
        match self {
            Scanned::Symbol(t) => Lexeme::Symbol(t@),
            Scanned::Word(w) => Lexeme::Word(w@),
        }
    }
}

/// Cuts a line of input into tokens, one at a time.
///
/// A word is a command when the shell runs it itself or when a program of
/// that name exists. A lexer made with [`Lexer::new`] asks the file system;
/// one made with [`Lexer::with_programs`] goes by a fixed list of names.
pub struct Lexer {
    input: Vec<char>,
    position: usize,
    program_dir: String,
    programs: Option<Vec<String>>,
}

impl Lexer {
    #[verifier::type_invariant]
    spec fn in_bounds(&self) -> bool {
        self.position <= self.input.len()
    }

    /// The input that has not been read yet.
    pub closed spec fn rest(&self) -> Seq<char> {
        self.input@.skip(self.position as int)
    }

    /// The names of the programs that exist, if the lexer was given a list.
    pub closed spec fn known(&self) -> Option<Seq<Seq<char>>> {
        match self.programs {
            Some(names) => Some(names.deep_view()),
            None => None,
        }
    }

    /// The directory in which programs are looked up.
    pub closed spec fn directory(&self) -> Seq<char> {
        self.program_dir@
    }

    /// A lexer on `input` that looks programs up in `program_dir`.
    pub fn new(input: &str, program_dir: &str) -> (lexer: Lexer)
        ensures
            lexer.rest() == input@,
            lexer.known() is None,
            lexer.directory() == program_dir@,
    {
        let chars = chars_of(input);
        Lexer {
            input: chars,
            position: 0,
            program_dir: String::from_str(program_dir),
            programs: None,
        }
    }

    /// A lexer on `input` for which exactly the names in `programs` name a
    /// program.
    pub fn with_programs(input: &str, programs: Vec<String>) -> (lexer: Lexer)
        ensures
            lexer.rest() == input@,
            lexer.known() == Some(programs.deep_view()),
            lexer.directory() == Seq::<char>::empty(),
    {
        let chars = chars_of(input);
        Lexer { input: chars, position: 0, program_dir: String::new(), programs: Some(programs) }
    }

    /// All the tokens of the input that has not been read yet.
    pub fn get_tokens(&mut self) -> (tokens: Vec<Token>)
        ensures
            tokenized(old(self).known(), old(self).rest(), tokens.deep_view()),
            final(self).rest().len() == 0,
            final(self).known() == old(self).known(),
            final(self).directory() == old(self).directory(),
    {
        let mut tokens: Vec<Token> = Vec::new();
        let ghost start = self.rest();
        let ghost known = self.known();
        loop
            invariant
                self.known() == known,
                self.directory() == old(self).directory(),
                forall|tail: Seq<TokenView>| #[trigger]
                    tokenized(known, self.rest(), tail) ==> tokenized(
                        known,
                        start,
                        tokens.deep_view() + tail,
                    ),
            ensures
                self.known() == known,
                self.directory() == old(self).directory(),
                self.rest().len() == 0,
                tokenized(known, start, tokens.deep_view()),
            decreases self.rest().len(),
        {
            let ghost before = self.rest();
            let ghost done = tokens.deep_view();
            match self.next() {
                Some(token) => {
                    tokens.push(token);
                    proof {
                        let after = self.rest();
                        let now = tokens.deep_view();
                        assert forall|tail: Seq<TokenView>| #[trigger]
                            tokenized(known, after, tail) implies tokenized(
                            known,
                            start,
                            now + tail,
                        ) by {
                            let longer = seq![token@] + tail;
                            assert(longer.drop_first() == tail);
                            assert(tokenized(known, before, longer));
                            assert(done + longer == now + tail);
                        }
                    }
                },
                None => {
                    assert(tokenized(known, self.rest(), Seq::empty()));
                    break ;
                },
            }
        }
        tokens
    }

    /// The next token, or `None` at the end of the input. The blanks behind
    /// the token are read too.
    pub fn next(&mut self) -> (token: Option<Token>)
        ensures
            exists|found: bool|
                {
                    &&& may_answer(old(self).known(), old(self).rest(), found)
                    &&& match #[trigger] first_token(old(self).rest(), found) {
                        Some((t, rest)) => token.deep_view() == Some(t) && final(self).rest()
                            == rest,
                        None => token is None && final(self).rest() == old(self).rest(),
                    }
                },
            old(self).rest().len() > 0 ==> final(self).rest().len() < old(self).rest().len(),
            final(self).known() == old(self).known(),
            final(self).directory() == old(self).directory(),
    {
        let ghost input = self.rest();
        match self.scan() {
            None => {
                None
            },
            Some(Scanned::Symbol(token)) => {
                self.consume_whitespaces();
                proof {
                    let end = scan(input).unwrap().1;
                    lemma_ends_shift(input, end, 0);
                }
                Some(token)
            },
            Some(Scanned::Word(word)) => {
                let lower = lowercase(word.as_str());
                let keyword = keyword_token(&lower);
                let found = if keyword.is_none() && !builtin(&lower) {
                    self.has_program(&lower)
                } else {
                    true
                };
                let token = match keyword {
                    Some(k) => k,
                    None => if found {
                        Token::Command(lower)
                    } else {
                        Token::Argument(lower)
                    },
                };
                self.consume_whitespaces();
                proof {
                    let end = scan(input).unwrap().1;
                    lemma_ends_shift(input, end, 0);
                    let answer = match self.known() {
                        Some(names) => names.contains(lower@),
                        None => found,
                    };
                    assert(first_token(input, answer) == Some((token@, self.rest())));
                }
                Some(token)
            },
        }
    }

    /// Whether a program named `word` exists.
    fn has_program(&self, word: &String) -> (found: bool)
        ensures
            self.known() matches Some(names) ==> found == names.contains(word@),
    {
        match &self.programs {
            Some(names) => contains_text(names, word),
            None => {
                let path = program_file(self.program_dir.as_str(), word.as_str());
                is_file(path.as_str())
            },
        }
    }

    /// Reads the lexeme at the start of the input, without the blanks behind
    /// it.
    fn scan(&mut self) -> (scanned: Option<Scanned>)
        ensures
            match scan(old(self).rest()) {
                Some((lexeme, end)) => scanned matches Some(s) && s.lexeme() == lexeme && 0 < end
                    <= old(self).rest().len() && final(self).rest() == old(self).rest().skip(end),
                None => scanned is None && final(self).rest() == old(self).rest(),
            },
            final(self).programs == old(self).programs,
            final(self).program_dir == old(self).program_dir,
    {
        let ghost input = self.rest();
        let first = self.next_char();
        proof {
            if input.len() > 0 {
                lemma_ends_shift(input, 1, 0);
                if input.len() > 1 {
                    lemma_ends_shift(input, 2, 0);
                    assert(input.skip(1).skip(1) == input.skip(2));
                }
            }
        }
        match first {
            None => None,
            Some('&') => {
                if self.follows('&') {
                    Some(Scanned::Symbol(Token::DoubleAmpersand))
                } else {
                    Some(Scanned::Symbol(Token::Ampersand))
                }
            },
            Some('|') => {
                if self.follows('|') {
                    Some(Scanned::Symbol(Token::DoublePipe))
                } else {
                    Some(Scanned::Symbol(Token::Pipe))
                }
            },
            Some(';') => {
                if self.follows(';') {
                    Some(Scanned::Symbol(Token::DoubleSemicolon))
                } else {
                    Some(Scanned::Symbol(Token::Semicolon))
                }
            },
            Some('$') => {
                let word = self.next_word(Vec::new());
                assert(word@ == input.subrange(1, word_end(input, 1)));
                Some(Scanned::Symbol(Token::EnvVariable(string_of(&word))))
            },
            Some('-') => {
                if self.follows('-') {
                    let init = vec!['-', '-'];
                    let word = self.next_word(init);
                    assert(word@ == input.subrange(0, word_end(input, 2)));
                    Some(Scanned::Symbol(Token::DoubleHyphen(string_of(&word))))
                } else {
                    let init = vec!['-'];
                    let word = self.next_word(init);
                    assert(word@ == input.subrange(0, word_end(input, 1)));
                    Some(Scanned::Symbol(Token::Hyphen(string_of(&word))))
                }
            },
            Some('\n') => Some(Scanned::Symbol(Token::EOL)),
            Some('\r') => {
                if self.follows('\n') {
                    Some(Scanned::Symbol(Token::EOL))
                } else {
                    Some(Scanned::Symbol(Token::EOL))
                }
            },
            Some('<') => {
                let name = self.redirect_target(Ghost(1));
                Some(Scanned::Symbol(Token::InputRedirect(name)))
            },
            Some('>') => {
                let name = self.redirect_target(Ghost(1));
                Some(Scanned::Symbol(Token::OutputRedirect(name)))
            },
            Some(c) => {
                if c == '1' && self.follows('>') {
                    let name = self.redirect_target(Ghost(2));
                    Some(Scanned::Symbol(Token::OutputRedirect(name)))
                } else if c == '2' && self.follows('>') {
                    let name = self.redirect_target(Ghost(2));
                    Some(Scanned::Symbol(Token::ErrorRedirect(name)))
                } else {
                    let init = vec![c];
                    let word = self.next_word(init);
                    assert(word@ == input.subrange(0, word_end(input, 1)));
                    Some(Scanned::Word(string_of(&word)))
                }
            },
        }
    }

    /// Reads the character `c` if it comes next, and says whether it did.
    fn follows(&mut self, c: char) -> (yes: bool)
        ensures
            yes == (old(self).rest().len() > 0 && old(self).rest()[0] == c),
            final(self).rest() == if yes {
                old(self).rest().skip(1)
            } else {
                old(self).rest()
            },
            final(self).position == if yes {
                old(self).position + 1
            } else {
                old(self).position as int
            },
            final(self).input == old(self).input,
            final(self).programs == old(self).programs,
            final(self).program_dir == old(self).program_dir,
    {
        match self.peek() {
            Some(d) => {
                if d == c {
                    self.next_char();
                    true
                } else {
                    false
                }
            },
            None => false,
        }
    }

    /// Reads the name of the file behind a redirection sign.
    fn redirect_target(&mut self, Ghost(sign_end): Ghost<int>) -> (name: String)
        requires
            0 <= sign_end <= old(self).position,
        ensures
            final(self).input == old(self).input,
            final(self).programs == old(self).programs,
            final(self).program_dir == old(self).program_dir,
            ({
                let whole = old(self).input@.skip(old(self).position - sign_end);
                let (target, end) = redirect_target(whole, sign_end);
                &&& name@ == target
                &&& sign_end <= end <= whole.len()
                &&& final(self).rest() == whole.skip(end)
            }),
    {
        let ghost whole = self.input@.skip(self.position - sign_end);
        let ghost after_sign = self.rest();
        proof {
            use_type_invariant(&*self);
            assert(after_sign == whole.skip(sign_end));
            lemma_ends_shift(whole, sign_end, 0);
        }
        self.consume_whitespaces();
        let ghost start = blanks_end(whole, sign_end);
        proof {
            assert(self.rest() == whole.skip(start));
            lemma_ends_shift(whole, start, 0);
        }
        let word = self.next_word(Vec::new());
        string_of(&word)
    }

    fn next_char(&mut self) -> (c: Option<char>)
        ensures
            c == if old(self).rest().len() > 0 {
                Some(old(self).rest()[0])
            } else {
                None
            },
            final(self).rest() == if old(self).rest().len() > 0 {
                old(self).rest().skip(1)
            } else {
                old(self).rest()
            },
            final(self).position == if old(self).rest().len() > 0 {
                old(self).position + 1
            } else {
                old(self).position as int
            },
            final(self).input == old(self).input,
            final(self).programs == old(self).programs,
            final(self).program_dir == old(self).program_dir,
    {
        proof {
            use_type_invariant(&*self);
        }
        if self.position < self.input.len() {
            let c = self.input[self.position];
            self.position += 1;
            Some(c)
        } else {
            None
        }
    }

    /// Reads the run of word characters at the start of the input and adds
    /// it to `init`.
    fn next_word(&mut self, init: Vec<char>) -> (word: Vec<char>)
        ensures
            word@ == init@ + old(self).rest().take(word_end(old(self).rest(), 0)),
            final(self).rest() == old(self).rest().skip(word_end(old(self).rest(), 0)),
            final(self).position == old(self).position + word_end(old(self).rest(), 0),
            final(self).input == old(self).input,
            final(self).programs == old(self).programs,
            final(self).program_dir == old(self).program_dir,
    {
        let mut word = init;
        let ghost input = self.rest();
        let ghost mut n: int = 0;
        loop
            invariant
                0 <= n <= input.len(),
                word@ == init@ + input.take(n),
                self.rest() == input.skip(n),
                self.position == old(self).position + n,
                word_end(input, n) == word_end(input, 0),
                self.input == old(self).input,
                self.programs == old(self).programs,
                self.program_dir == old(self).program_dir,
            ensures
                n == word_end(input, 0),
                word@ == init@ + input.take(n),
                self.rest() == input.skip(n),
                self.position == old(self).position + n,
                self.input == old(self).input,
                self.programs == old(self).programs,
                self.program_dir == old(self).program_dir,
            decreases input.len() - n,
        {
            match self.peek() {
                Some(c) => {
                    if Self::is_word_member(c) {
                        self.next_char();
                        word.push(c);
                        proof {
                            n = n + 1;
                        }
                    } else {
                        break ;
                    }
                },
                None => {
                    break ;
                },
            }
        }
        word
    }

    fn is_word_member(c: char) -> (member: bool)
        ensures
            member == word_member(c),
    {
        !(c == ' ' || c == '>' || c == '<' || c == '&' || c == '|' || c == '=' || c == '"' || c
            == '$' || c == '-' || c == ';' || c == '\r' || c == '\n')
    }

    fn peek(&self) -> (c: Option<char>)
        ensures
            c == if self.rest().len() > 0 {
                Some(self.rest()[0])
            } else {
                None
            },
    {
        proof {
            use_type_invariant(self);
        }
        if self.position < self.input.len() {
            Some(self.input[self.position])
        } else {
            None
        }
    }

    /// Reads the blanks at the start of the input.
    fn consume_whitespaces(&mut self)
        ensures
            final(self).rest() == old(self).rest().skip(blanks_end(old(self).rest(), 0)),
            final(self).position == old(self).position + blanks_end(old(self).rest(), 0),
            final(self).input == old(self).input,
            final(self).programs == old(self).programs,
            final(self).program_dir == old(self).program_dir,
    {
        let ghost input = self.rest();
        let ghost mut n: int = 0;
        loop
            invariant
                0 <= n <= input.len(),
                self.rest() == input.skip(n),
                self.position == old(self).position + n,
                blanks_end(input, n) == blanks_end(input, 0),
                self.input == old(self).input,
                self.programs == old(self).programs,
                self.program_dir == old(self).program_dir,
            ensures
                n == blanks_end(input, 0),
                self.rest() == input.skip(n),
                self.position == old(self).position + n,
                self.input == old(self).input,
                self.programs == old(self).programs,
                self.program_dir == old(self).program_dir,
            decreases input.len() - n,
        {
            match self.peek() {
                Some(c) => {
                    if c == ' ' {
                        self.next_char();
                        proof {
                            n = n + 1;
                        }
                    } else {
                        break ;
                    }
                },
                None => {
                    break ;
                },
            }
        }
    }
}

/// The keyword that the lower-case word `word` is, if it is one.
fn keyword_token(word: &String) -> (token: Option<Token>)
    ensures
        token.deep_view() == if word@ == "if"@ {
            Some(TokenView::If)
        } else if word@ == "then"@ {
            Some(TokenView::Then)
        } else if word@ == "else"@ {
            Some(TokenView::Else)
        } else {
            None
        },
{
    if *word == String::from_str("if") {
        Some(Token::If)
    } else if *word == String::from_str("then") {
        Some(Token::Then)
    } else if *word == String::from_str("else") {
        Some(Token::Else)
    } else {
        None
    }
}

/// Whether the lower-case word `word` names a command that the shell runs
/// itself.
pub fn builtin(word: &String) -> (yes: bool)
    ensures
        yes == is_builtin(word@),
{
    *word == String::from_str("cd") || *word == String::from_str("exit") || *word
        == String::from_str("set") || *word == String::from_str("clear")
}

} // verus!
