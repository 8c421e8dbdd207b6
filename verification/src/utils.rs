//! Helpers shared by the shell and by the programs that come with it.

use std::path::Path;
use vstd::prelude::*;
use vstd::utf8::{decode_utf8, encode_utf8, is_ascii_chars, is_char_boundary};
use crate::ast::Expr;
use crate::lexer::{tokenized, Lexer};
use crate::parser::{parsed, Parser};
use crate::text::{chars_of, joined_lines};
use crate::token::TokenView;
use crate::variables::Variables;

verus! {

/// Asks the file system whether `path` names an existing regular file, with
/// `Path::is_file`. The answer depends on what is on disk when the call is
/// made, so nothing is promised of it.
#[verifier::external_body]
pub fn is_file(path: &str) -> (found: bool) {
    Path::new(path).is_file()
}

/// Asks the file system whether `path` names an existing directory, with
/// `Path::is_dir`. The answer depends on what is on disk when the call is
/// made, so nothing is promised of it.
#[verifier::external_body]
pub fn is_dir(path: &str) -> (found: bool) {
    Path::new(path).is_dir()
}

/// The path of `name` in the directory `dir`: a separator stands between the
/// two unless the directory is empty or already ends with one.
pub open spec fn program_path_of(dir: Seq<char>, name: Seq<char>) -> Seq<char> {
    if dir.len() == 0 || dir.last() == '/' || dir.last() == '\\' {
        dir + name
    } else {
        dir + "/"@ + name
    }
}

/// The path of the file that has to exist for `word` to name a program in
/// the directory `dir`.
pub open spec fn program_file_of(dir: Seq<char>, word: Seq<char>) -> Seq<char> {
    program_path_of(dir, word) + ".exe"@
}

/// For a directory that is empty or ends with a separator, the paths are
/// the texts one after the other: the directory and the name, and for the
/// file of a program the suffix behind them.
pub proof fn lemma_paths_of_closed_directory(dir: Seq<char>, name: Seq<char>)
    requires
        dir.len() == 0 || dir.last() == '/' || dir.last() == '\\',
    ensures
        program_path_of(dir, name) == dir + name,
        program_file_of(dir, name) == dir + name + ".exe"@,
{
}

/// The path under which the program `name` is looked for in `dir`.
pub fn program_path(dir: &str, name: &str) -> (path: String)
    ensures
        path@ == program_path_of(dir@, name@),
{
    let chars = chars_of(dir);
    let mut path = String::from_str(dir);
    if chars.len() > 0 {
        let last = chars[chars.len() - 1];
        if last != '/' && last != '\\' {
            path.append("/");
        }
    }
    path.append(name);
    path
}

/// The path of the file that has to exist for `word` to name a program in
/// `dir`.
pub fn program_file(dir: &str, word: &str) -> (path: String)
    ensures
        path@ == program_file_of(dir@, word@),
{
    let mut path = program_path(dir, word);
    path.append(".exe");
    path
}

/// Whether one of `names` is the text `word`.
pub fn contains_text(names: &Vec<String>, word: &String) -> (found: bool)
    ensures
        found == names.deep_view().contains(word@),
{
    let mut i: usize = 0;
    while i < names.len()
        invariant
            i <= names.len(),
            forall|j: int| 0 <= j < i ==> names.deep_view()[j] != word@,
        decreases names.len() - i,
    {
        if names[i] == *word {
            assert(names.deep_view()[i as int] == word@);
            return true;
        }
        i += 1;
    }
    false
}

/// Parses one line of input. The words that name a program are those for
/// which a file exists in `program_dir`, or that the shell runs itself; the
/// variables among the arguments get their values from `variables`. An error
/// comes back as its message.
pub fn parse(input: &str, program_dir: &str, variables: Variables) -> (result: Result<
    Expr,
    String,
>)
    ensures
        exists|tokens: Seq<TokenView>|
            {
                &&& #[trigger] tokenized(None, input@, tokens)
                &&& match parsed(tokens, variables@) {
                    Ok(expr) => result matches Ok(e) && e@ == expr,
                    Err(error) => result matches Err(text) && text@ == error.message(),
                }
            },
{
    let mut lexer = Lexer::new(input, program_dir);
    let tokens = lexer.get_tokens();
    let mut parser = Parser::new(tokens, variables);
    let result = parser.parse();
    result
}

/// The texts of the entries of `contents` that were read, if `read` is
/// true, or of those that were not, if it is false, in their order.
pub open spec fn selected(contents: Seq<Result<String, String>>, read: bool) -> Seq<Seq<char>>
    decreases contents.len(),
{
    if contents.len() == 0 {
        Seq::empty()
    } else {
        let before = selected(contents.drop_last(), read);
        match contents.last() {
            Ok(text) => if read {
                before.push(text@)
            } else {
                before
            },
            Err(text) => if read {
                before
            } else {
                before.push(text@)
            },
        }
    }
}

/// Whether the last two bytes of the text `s` can be cut off: it has fewer
/// than two bytes, or a character starts two bytes before its end.
pub open spec fn can_chop(s: Seq<char>) -> bool {
    let bytes = encode_utf8(s);
    bytes.len() >= 2 ==> is_char_boundary(bytes, bytes.len() - 2)
}

/// The text `s` without its last two bytes, or `s` itself if it has fewer
/// than two bytes.
pub open spec fn chopped(s: Seq<char>) -> Seq<char> {
    let bytes = encode_utf8(s);
    if bytes.len() >= 2 {
        decode_utf8(bytes.subrange(0, bytes.len() - 2))
    } else {
        s
    }
}

/// The bytes of two texts, one after the other, are the bytes of the texts
/// joined.
proof fn lemma_encode_joined(a: Seq<char>, b: Seq<char>)
    ensures
        encode_utf8(a + b) == encode_utf8(a) + encode_utf8(b),
    decreases a.len(),
{
    if a.len() > 0 {
        lemma_encode_joined(a.drop_first(), b);
        assert((a + b).drop_first() == a.drop_first() + b);
    }
}

/// A text that ends with two ASCII characters, such as a line break, can
/// lose its last two bytes, and what it loses are those two characters.
pub proof fn lemma_chop_short_end(s: Seq<char>)
    requires
        s.len() >= 2,
        is_ascii_chars(s.skip(s.len() - 2)),
    ensures
        can_chop(s),
        chopped(s) == s.take(s.len() - 2),
{
    broadcast use {
        vstd::utf8::encode_utf8_valid_utf8,
        vstd::utf8::encode_utf8_decode_utf8,
        vstd::utf8::is_ascii_chars_encode_utf8,
    };

    let head = s.take(s.len() - 2);
    let tail = s.skip(s.len() - 2);
    assert(s == head + tail);
    lemma_encode_joined(head, tail);
    let bytes = encode_utf8(s);
    let cut = encode_utf8(head).len() as int;
    vstd::utf8::is_char_boundary_iff_not_is_continuation_byte(bytes, cut);
    assert(bytes.subrange(0, cut) == encode_utf8(head));
}

/// What `read_files` leaves in a buffer that held `before` when `texts` are
/// added to it: the texts follow what was there, with a line break between
/// each two of them. If there is no text to add, the buffer loses its last
/// two bytes.
pub open spec fn collected(before: Seq<char>, texts: Seq<Seq<char>>) -> Seq<char> {
    if texts.len() > 0 {
        before + joined_lines(texts)
    } else {
        chopped(before)
    }
}

/// Cuts the last two bytes off `buffer`, if it has two.
fn chop(buffer: &mut String)
    requires
        can_chop(old(buffer)@),
    ensures
        final(buffer)@ == chopped(old(buffer)@),
{
    broadcast use vstd::utf8::encode_utf8_decode_utf8;

    let length = buffer.as_str().as_bytes().len();
    if length >= 2 {
        let (head, _) = buffer.as_str().split_at(length - 2);
        let kept = head.to_owned();
        *buffer = kept;
    }
}

/// Collects the contents of files that were read, and the messages for
/// those that were not. Each entry of `contents` is the outcome for one
/// file: its text, or the message that says why there is none.
///
/// The texts are added to `stdout` and the messages to `stderr`, each with
/// a line break between two entries. A buffer for which there is nothing to
/// add loses its last two bytes instead.
pub fn read_files(contents: Vec<Result<String, String>>, stdout: &mut String, stderr: &mut String)
    requires
        selected(contents@, true).len() == 0 ==> can_chop(old(stdout)@),
        selected(contents@, false).len() == 0 ==> can_chop(old(stderr)@),
    ensures
        final(stdout)@ == collected(old(stdout)@, selected(contents@, true)),
        final(stderr)@ == collected(old(stderr)@, selected(contents@, false)),
{
    let mut texts: usize = 0;
    let mut messages: usize = 0;
    let mut i: usize = 0;
    while i < contents.len()
        invariant
            i <= contents.len(),
            texts <= i,
            messages <= i,
            texts == selected(contents@.take(i as int), true).len(),
            messages == selected(contents@.take(i as int), false).len(),
            texts == 0 ==> stdout@ == old(stdout)@,
            messages == 0 ==> stderr@ == old(stderr)@,
            texts > 0 ==> stdout@ == old(stdout)@ + joined_lines(
                selected(contents@.take(i as int), true),
            ),
            messages > 0 ==> stderr@ == old(stderr)@ + joined_lines(
                selected(contents@.take(i as int), false),
            ),
        decreases contents.len() - i,
    {
        proof {
            let now = contents@.take(i + 1);
            assert(now.drop_last() == contents@.take(i as int));
        }
        let ghost read_before = selected(contents@.take(i as int), true);
        let ghost failed_before = selected(contents@.take(i as int), false);
        match &contents[i] {
            Ok(text) => {
                if texts > 0 {
                    stdout.append("\r\n");
                }
                stdout.append(text.as_str());
                texts += 1;
                proof {
                    let read_now = selected(contents@.take(i + 1), true);
                    assert(read_now.drop_last() == read_before);
                }
            },
            Err(message) => {
                if messages > 0 {
                    stderr.append("\r\n");
                }
                stderr.append(message.as_str());
                messages += 1;
                proof {
                    let failed_now = selected(contents@.take(i + 1), false);
                    assert(failed_now.drop_last() == failed_before);
                }
            },
        }
        i += 1;
    }
    assert(contents@.take(contents.len() as int) == contents@);
    if texts == 0 {
        chop(stdout);
    }
    if messages == 0 {
        chop(stderr);
    }
}

/// The characters of all the `options`, in their order.
pub open spec fn flattened(options: Seq<Seq<char>>) -> Seq<char>
    decreases options.len(),
{
    if options.len() == 0 {
        Seq::empty()
    } else {
        flattened(options.drop_last()) + options.last()
    }
}

/// Checks the option letters in `options` against the letters that `pref`
/// allows. The result is all the letters in their order, or the first
/// letter that is not allowed.
pub fn process_options(options: Vec<String>, pref: Vec<char>) -> (result: Result<Vec<char>, char>)
    ensures
        match result {
            Ok(valid) => {
                &&& valid@ == flattened(options.deep_view())
                &&& forall|i: int| 0 <= i < valid@.len() ==> pref@.contains(#[trigger] valid@[i])
            },
            Err(c) => exists|i: int|
                {
                    &&& 0 <= i < flattened(options.deep_view()).len()
                    &&& #[trigger] flattened(options.deep_view())[i] == c
                    &&& !pref@.contains(c)
                    &&& forall|j: int|
                        0 <= j < i ==> pref@.contains(#[trigger] flattened(options.deep_view())[j])
                },
        },
{
    let mut valid_result: Vec<char> = Vec::new();
    let ghost all = flattened(options.deep_view());
    let mut k: usize = 0;
    while k < options.len()
        invariant
            k <= options.len(),
            all == flattened(options.deep_view()),
            valid_result@ == flattened(options.deep_view().take(k as int)),
            forall|i: int| 0 <= i < valid_result@.len() ==> pref@.contains(#[trigger] valid_result@[i]),
            flattened(options.deep_view().take(k as int)).len() <= all.len(),
            all.take(valid_result@.len() as int) == valid_result@,
        decreases options.len() - k,
    {
        let chars = chars_of(options[k].as_str());
        let ghost done = valid_result@;
        proof {
            lemma_flattened_prefix(options.deep_view(), k + 1);
            let now = options.deep_view().take(k + 1);
            assert(now.drop_last() == options.deep_view().take(k as int));
        }
        let mut j: usize = 0;
        while j < chars.len()
            invariant
                j <= chars.len(),
                valid_result@ == done + chars@.take(j as int),
                forall|i: int|
                    0 <= i < valid_result@.len() ==> pref@.contains(#[trigger] valid_result@[i]),
                (done + chars@).len() <= all.len(),
                all.take((done + chars@).len() as int) == done + chars@,
                all == flattened(options.deep_view()),
            decreases chars.len() - j,
        {
            let c = chars[j];
            if contains_char(&pref, c) {
                valid_result.push(c);
            } else {
                proof {
                    let at = valid_result@.len() as int;
                    assert(all[at] == (done + chars@)[at]);
                    assert forall|i: int| 0 <= i < at implies pref@.contains(#[trigger] all[i]) by {
                        assert(all[i] == (done + chars@)[i]);
                        assert(all[i] == valid_result@[i]);
                    }
                }
                return Err(c);
            }
            j += 1;
        }
        k += 1;
    }
    assert(options.deep_view().take(options.len() as int) == options.deep_view());
    Ok(valid_result)
}

/// The characters of the first options are the start of the characters of
/// all options.
proof fn lemma_flattened_prefix(options: Seq<Seq<char>>, k: int)
    requires
        0 <= k <= options.len(),
    ensures
        flattened(options.take(k)).len() <= flattened(options).len(),
        flattened(options).take(flattened(options.take(k)).len() as int) == flattened(
            options.take(k),
        ),
    decreases options.len() - k,
{
    if k == options.len() {
        assert(options.take(k) == options);
    } else {
        lemma_flattened_prefix(options, k + 1);
        let longer = options.take(k + 1);
        assert(longer.drop_last() == options.take(k));
    }
}

/// Whether `c` is one of `chars`.
pub fn contains_char(chars: &Vec<char>, c: char) -> (found: bool)
    ensures
        found == chars@.contains(c),
{
    let mut i: usize = 0;
    while i < chars.len()
        invariant
            i <= chars.len(),
            forall|j: int| 0 <= j < i ==> chars@[j] != c,
        decreases chars.len() - i,
    {
        if chars[i] == c {
            return true;
        }
        i += 1;
    }
    false
}

/// Whether all the arguments are the same text as the first one.
pub fn eq(arguments: &Vec<String>) -> (same: bool)
    requires
        arguments.len() > 0,
    ensures
        same == forall|i: int|
            0 <= i < arguments.len() ==> #[trigger] arguments.deep_view()[i]
                == arguments.deep_view()[0],
{
    let mut i: usize = 1;
    while i < arguments.len()
        invariant
            1 <= i <= arguments.len(),
            forall|j: int|
                0 <= j < i ==> #[trigger] arguments.deep_view()[j] == arguments.deep_view()[0],
        decreases arguments.len() - i,
    {
        if !(arguments[i] == arguments[0]) {
            assert(arguments.deep_view()[i as int] != arguments.deep_view()[0]);
            return false;
        }
        i += 1;
    }
    true
}

} // verus!
