//! What the `cat` program does with its arguments and with the text it has
//! read.

use vstd::prelude::*;
use crate::text::{
    chars_of,
    decimal,
    decimal_of,
    join_lines,
    joined_lines,
    lemma_chars_deep_view,
    lines,
    split_lines,
    string_of,
};

verus! {

/// Whether the argument `argument` is an option: it starts with a hyphen.
pub open spec fn is_option(argument: Seq<char>) -> bool {
    argument.len() > 0 && argument[0] == '-'
}

/// The arguments that name files: those that are no options, in their
/// order.
pub open spec fn files_of(arguments: Seq<Seq<char>>) -> Seq<Seq<char>>
    decreases arguments.len(),
{
    if arguments.len() == 0 {
        Seq::empty()
    } else if is_option(arguments.last()) {
        files_of(arguments.drop_last())
    } else {
        files_of(arguments.drop_last()).push(arguments.last())
    }
}

/// The options among the arguments, in their order, each without the hyphen
/// that it starts with.
pub open spec fn options_of(arguments: Seq<Seq<char>>) -> Seq<Seq<char>>
    decreases arguments.len(),
{
    if arguments.len() == 0 {
        Seq::empty()
    } else if is_option(arguments.last()) {
        options_of(arguments.drop_last()).push(arguments.last().drop_first())
    } else {
        options_of(arguments.drop_last())
    }
}

/// Splits the arguments into the names of files and the options. An option
/// starts with a hyphen, which is left out of the result.
pub fn split_args(arguments: &Vec<String>) -> (parts: (Vec<String>, Vec<String>))
    ensures
        parts.0.deep_view() == files_of(arguments.deep_view()),
        parts.1.deep_view() == options_of(arguments.deep_view()),
{
    let mut files: Vec<String> = Vec::new();
    let mut options: Vec<String> = Vec::new();
    let ghost all = arguments.deep_view();
    let mut i: usize = 0;
    while i < arguments.len()
        invariant
            i <= arguments.len(),
            all == arguments.deep_view(),
            files.deep_view() == files_of(all.take(i as int)),
            options.deep_view() == options_of(all.take(i as int)),
        decreases arguments.len() - i,
    {
        let chars = chars_of(arguments[i].as_str());
        proof {
            let now = all.take(i + 1);
            assert(now.drop_last() == all.take(i as int));
        }
        if chars.len() > 0 && chars[0] == '-' {
            let mut rest: Vec<char> = Vec::new();
            let mut j: usize = 1;
            while j < chars.len()
                invariant
                    1 <= j <= chars.len(),
                    rest@ == chars@.subrange(1, j as int),
                decreases chars.len() - j,
            {
                rest.push(chars[j]);
                j += 1;
            }
            let option = string_of(&rest);
            options.push(option);
        } else {
            files.push(arguments[i].clone());
        }
        i += 1;
    }
    assert(all.take(arguments.len() as int) == all);
    (files, options)
}

/// The `parts` that are not empty, in their order.
pub open spec fn filled(parts: Seq<Seq<char>>) -> Seq<Seq<char>>
    decreases parts.len(),
{
    if parts.len() == 0 {
        Seq::empty()
    } else if parts.last().len() == 0 {
        filled(parts.drop_last())
    } else {
        filled(parts.drop_last()).push(parts.last())
    }
}

/// The text without its empty lines: the lines that are not empty, with a
/// line break between each two of them.
pub fn remove_empty_lines(text: &str) -> (result: String)
    ensures
        result@ == joined_lines(filled(lines(text@))),
{
    let chars = chars_of(text);
    let parts = split_lines(&chars);
    let mut kept: Vec<Vec<char>> = Vec::new();
    let ghost all = parts.deep_view();
    let mut i: usize = 0;
    while i < parts.len()
        invariant
            i <= parts.len(),
            all == parts.deep_view(),
            kept.deep_view() == filled(all.take(i as int)),
        decreases parts.len() - i,
    {
        proof {
            let now = all.take(i + 1);
            assert(now.drop_last() == all.take(i as int));
        }
        if parts[i].len() > 0 {
            let part = parts[i].clone();
            kept.push(part);
        }
        i += 1;
    }
    assert(all.take(parts.len() as int) == all);
    let joined = join_lines(&kept);
    string_of(&joined)
}

/// The line `line` with its number `n` in front of it: four blanks, the
/// number and one blank.
pub open spec fn numbered_line(n: nat, line: Seq<char>) -> Seq<char> {
    "    "@ + decimal(n) + " "@ + line
}

/// Each of the `parts` with its number in front of it, counted from one.
pub open spec fn numbered(parts: Seq<Seq<char>>) -> Seq<Seq<char>> {
    Seq::new(parts.len(), |i: int| numbered_line((i + 1) as nat, parts[i]))
}

/// The text with the number of each line in front of the line.
pub fn display_line_numbers(text: &str) -> (result: String)
    ensures
        result@ == joined_lines(numbered(lines(text@))),
{
    let chars = chars_of(text);
    let parts = split_lines(&chars);
    let mut shown: Vec<Vec<char>> = Vec::new();
    let ghost all = parts.deep_view();
    let mut i: usize = 0;
    proof {
        reveal_strlit("    ");
        reveal_strlit(" ");
    }
    while i < parts.len()
        invariant
            i <= parts.len(),
            all == parts.deep_view(),
            shown.deep_view() == numbered(all).take(i as int),
            "    "@ == seq![' ', ' ', ' ', ' '],
            " "@ == seq![' '],
        decreases parts.len() - i,
    {
        let mut line: Vec<char> = vec![' ', ' ', ' ', ' '];
        let mut digits = decimal_of(i + 1);
        line.append(&mut digits);
        line.push(' ');
        let part = &parts[i];
        let ghost lead = line@;
        let mut j: usize = 0;
        while j < part.len()
            invariant
                j <= part.len(),
                line@ == lead + part@.take(j as int),
            decreases part.len() - j,
        {
            line.push(part[j]);
            j += 1;
        }
        proof {
            lemma_chars_deep_view(line);
            assert(line@ == numbered_line((i + 1) as nat, all[i as int]));
        }
        shown.push(line);
        assert(numbered(all).take(i + 1) == numbered(all).take(i as int).push(
            numbered(all)[i as int],
        ));
        i += 1;
    }
    assert(numbered(all).take(parts.len() as int) == numbered(all));
    let joined = join_lines(&shown);
    string_of(&joined)
}

} // verus!
