//! Diagnostics, as the lines of text that show an error in its source.

use crate::text::{decimal, to_decimal};
use vstd::prelude::*;
use vstd::string::{StrSliceExecFns, StringExecFns};

verus! {

/// A run of `n` spaces.
pub open spec fn spaces(n: nat) -> Seq<char> {
    Seq::new(n, |i: int| ' ')
}

/// `text`, with spaces in front of it up to `width` characters.
pub open spec fn right_aligned(text: Seq<char>, width: nat) -> Seq<char> {
    if text.len() >= width {
        text
    } else {
        spaces((width - text.len()) as nat) + text
    }
}

/// A line of the source, behind its number.
pub open spec fn source_line(number: nat, content: Seq<char>) -> Seq<char> {
    right_aligned(decimal(number), 4) + " | "@ + content
}

/// A line that points at `column` of the source line above it.
pub open spec fn marker(column: nat, label: Seq<char>) -> Seq<char> {
    "     | "@ + spaces(
        if column >= 1 {
            (column - 1) as nat
        } else {
            0
        },
    ) + label
}

/// The texts of a sequence of strings.
pub open spec fn texts(lines: Seq<String>) -> Seq<Seq<char>> {
    Seq::new(lines.len(), |i: int| lines[i]@)
}

/// The report of an error at `line` and `column`: the message, an empty
/// line, the source line and a marker below the column. Nothing for a line
/// that the source does not have.
pub open spec fn error_report(
    line: nat,
    source_lines: Seq<Seq<char>>,
    column: nat,
    message: Seq<char>,
) -> Seq<Seq<char>> {
    if 1 <= line <= source_lines.len() {
        seq![
            "Error: "@ + message,
            Seq::empty(),
            source_line(line, source_lines[line - 1]),
            marker(column, "^-- Here."@),
        ]
    } else {
        Seq::empty()
    }
}

/// The lines of the source from the one numbered `start_line` on, each
/// behind its number, with a marker for `start_column` below the first.
pub open spec fn context(start_line: nat, context_lines: Seq<Seq<char>>, start_column: nat) -> Seq<
    Seq<char>,
>
    decreases context_lines.len(),
{
    if context_lines.len() == 0 {
        Seq::empty()
    } else if context_lines.len() == 1 {
        seq![
            source_line(start_line, context_lines[0]),
            marker(start_column, "^-- String starts here"@),
        ]
    } else {
        context(start_line, context_lines.drop_last(), start_column).push(
            source_line(
                if start_line + context_lines.len() - 1 > usize::MAX {
                    usize::MAX as nat
                } else {
                    (start_line + context_lines.len() - 1) as nat
                },
                context_lines.last(),
            ),
        )
    }
}

/// The report of an error that runs over several lines: the message, an
/// empty line, the lines with the marker below the first, and a closing
/// line.
pub open spec fn multiline_report(
    start_line: nat,
    context_lines: Seq<Seq<char>>,
    start_column: nat,
    message: Seq<char>,
) -> Seq<Seq<char>> {
    seq!["Error: "@ + message, Seq::empty()] + context(start_line, context_lines, start_column)
        + seq!["     | ... string never closes"@]
}

fn blank(n: usize) -> (r: String)
    ensures
        r@ == spaces(n as nat),
{
    let mut r = String::new();
    let mut i: usize = 0;
    proof {
        reveal_strlit(" ");
        assert(r@ =~= spaces(0));
    }
    while i < n
        invariant
            i <= n,
            r@ == spaces(i as nat),
            " "@ == seq![' '],
        decreases n - i,
    {
        r.append(" ");
        i += 1;
        assert(r@ =~= spaces(i as nat));
    }
    r
}

fn numbered(number: usize, content: &str) -> (r: String)
    ensures
        r@ == source_line(number as nat, content@),
{
    let digits = to_decimal(number);
    let width = digits.as_str().unicode_len();
    let mut r = if width >= 4 {
        String::new()
    } else {
        blank(4 - width)
    };
    r.append(digits.as_str());
    r.append(" | ");
    r.append(content);
    assert(r@ =~= source_line(number as nat, content@));
    r
}

fn pointer(column: usize, label: &str) -> (r: String)
    ensures
        r@ == marker(column as nat, label@),
{
    let mut r = String::from_str("     | ");
    r.append(blank(if column >= 1 { column - 1 } else { 0 }).as_str());
    r.append(label);
    r
}

fn headline(message: &str) -> (r: String)
    ensures
        r@ == "Error: "@ + message@,
{
    let mut r = String::from_str("Error: ");
    r.append(message);
    r
}

/// The report of an error at one place of the source.
pub fn report_error(line: usize, source_lines: &[String], column: usize, message: &str) -> (r: Vec<
    String,
>)
    ensures
        texts(r@) == error_report(line as nat, texts(source_lines@), column as nat, message@),
{
    let mut r: Vec<String> = Vec::new();
    if 1 <= line && line <= source_lines.len() {
        r.push(headline(message));
        r.push(String::new());
        r.push(numbered(line, source_lines[line - 1].as_str()));
        r.push(pointer(column, "^-- Here."));
    }
    assert(texts(r@) =~= error_report(
        line as nat,
        texts(source_lines@),
        column as nat,
        message@,
    ));
    r
}

/// The report of an error that runs over several lines of the source, such
/// as a string that is never closed.
pub fn report_error_multiline(
    start_line: usize,
    context_lines: &[String],
    start_column: usize,
    message: &str,
) -> (r: Vec<String>)
    ensures
        texts(r@) == multiline_report(
            start_line as nat,
            texts(context_lines@),
            start_column as nat,
            message@,
        ),
{
    let mut r: Vec<String> = Vec::new();
    r.push(headline(message));
    r.push(String::new());
    let ghost head = texts(r@);
    assert(head =~= seq!["Error: "@ + message@, Seq::empty()]);
    let mut i: usize = 0;
    assert(texts(context_lines@).subrange(0, 0) =~= Seq::<Seq<char>>::empty());
    assert(texts(r@) =~= head + context(
        start_line as nat,
        texts(context_lines@).subrange(0, 0),
        start_column as nat,
    ));
    while i < context_lines.len()
        invariant
            0 <= i <= context_lines@.len(),
            head == seq!["Error: "@ + message@, Seq::empty()],
            texts(r@) == head + context(
                start_line as nat,
                texts(context_lines@).subrange(0, i as int),
                start_column as nat,
            ),
        decreases context_lines@.len() - i,
    {
        let ghost before = texts(r@);
        let ghost seen = texts(context_lines@).subrange(0, i as int);
        let ghost now = texts(context_lines@).subrange(0, i + 1);
        let number = if start_line > usize::MAX - i {
            usize::MAX
        } else {
            start_line + i
        };
        r.push(numbered(number, context_lines[i].as_str()));
        if i == 0 {
            r.push(pointer(start_column, "^-- String starts here"));
        }
        proof {
            assert(now.drop_last() =~= seen);
            assert(now.last() == context_lines@[i as int]@);
            if i == 0 {
                assert(texts(r@) =~= before + seq![
                    source_line(start_line as nat, context_lines@[0]@),
                    marker(start_column as nat, "^-- String starts here"@),
                ]);
            } else {
                assert(texts(r@) =~= before.push(
                    source_line(number as nat, context_lines@[i as int]@),
                ));
            }
            assert(texts(r@) =~= head + context(start_line as nat, now, start_column as nat));
        }
        i += 1;
    }
    r.push(String::from_str("     | ... string never closes"));
    proof {
        assert(texts(context_lines@).subrange(0, i as int) =~= texts(context_lines@));
        assert(texts(r@) =~= multiline_report(
            start_line as nat,
            texts(context_lines@),
            start_column as nat,
            message@,
        ));
    }
    r
}

} // verus!
