//! The canonical form in which definition texts are compared.

use crate::text::{
    chars_of, free_of, is_space, join, join_of, lemma_seqs_of_push, lemma_split_append,
    lemma_split_free, seqs_of, split, split_of, string_of, trim_end, trim_end_of,
};
use vstd::prelude::*;

verus! {

/// Each line without its trailing white space.
pub open spec fn trimmed_lines_of(lines: Seq<Seq<char>>) -> Seq<Seq<char>> {
    lines.map_values(|line: Seq<char>| trim_end_of(line))
}

/// The canonical form of a definition text: every line without its trailing
/// white space, lines separated by a single line feed, and nothing but the
/// last non-blank line at the end.
pub open spec fn normalized_of(sql: Seq<char>) -> Seq<char> {
    trim_end_of(join_of(trimmed_lines_of(split_of(sql, '\n')), seq!['\n']))
}

/// Brings a definition text into its canonical form for comparison.
/// Indentation and the structure of the text are kept.
pub fn normalize_sql(sql: &str) -> (normalized: String)
    ensures
        normalized@ == normalized_of(sql@),
        normalized_of(normalized@) == normalized@,
{
    proof {
        lemma_normalize_idempotent(sql@);
    }
    let chars = chars_of(sql);
    let lines = split(&chars, '\n');
    let mut trimmed: Vec<Vec<char>> = Vec::new();
    let mut i: usize = 0;
    let ghost goal = trimmed_lines_of(seqs_of(lines@));
    while i < lines.len()
        invariant
            i <= lines.len(),
            goal == trimmed_lines_of(seqs_of(lines@)),
            seqs_of(trimmed@) == goal.take(i as int),
        decreases lines.len() - i,
    {
        let line = trim_end(&lines[i]);
        proof {
            lemma_seqs_of_push(trimmed@, line);
        }
        trimmed.push(line);
        i = i + 1;
    }
    assert(goal.take(lines.len() as int) =~= goal);
    let mut newline: Vec<char> = Vec::new();
    newline.push('\n');
    let joined = join(&trimmed, &newline);
    let result = trim_end(&joined);
    string_of(&result)
}

/// Whether `s` does not end in white space.
pub open spec fn is_trimmed(s: Seq<char>) -> bool {
    s.len() == 0 || !is_space(s.last())
}

/// `lines` without the empty lines at its end.
pub open spec fn without_blank_tail(lines: Seq<Seq<char>>) -> Seq<Seq<char>>
    decreases lines.len(),
{
    if lines.len() > 0 && lines.last().len() == 0 {
        without_blank_tail(lines.drop_last())
    } else {
        lines
    }
}

/// Trimming leaves a beginning of the text, and one that does not end in
/// white space.
proof fn lemma_trim_end(s: Seq<char>)
    ensures
        trim_end_of(s).len() <= s.len(),
        trim_end_of(s) == s.take(trim_end_of(s).len() as int),
        is_trimmed(trim_end_of(s)),
    decreases s.len(),
{
    if s.len() > 0 && is_space(s.last()) {
        lemma_trim_end(s.drop_last());
    }
}

/// No piece of a split text holds the separator.
proof fn lemma_split_pieces(s: Seq<char>, sep: char)
    ensures
        split_of(s, sep).len() >= 1,
        forall|i: int| 0 <= i < split_of(s, sep).len() ==> free_of(#[trigger] split_of(s, sep)[i], sep),
    decreases s.len(),
{
    if s.len() > 0 {
        lemma_split_pieces(s.drop_last(), sep);
    }
}

/// Splitting what was joined gives the lines back, where no line holds the
/// separator.
proof fn lemma_split_join(lines: Seq<Seq<char>>, sep: char)
    requires
        lines.len() >= 1,
        forall|i: int| 0 <= i < lines.len() ==> free_of(#[trigger] lines[i], sep),
    ensures
        split_of(join_of(lines, seq![sep]), sep) == lines,
    decreases lines.len(),
{
    if lines.len() == 1 {
        lemma_split_free(lines[0], sep);
    } else {
        let init = lines.drop_last();
        lemma_split_join(init, sep);
        lemma_split_append(join_of(init, seq![sep]), lines.last(), sep);
    }
}

/// What is left without the blank tail is a beginning of the lines that
/// does not end in an empty line.
proof fn lemma_without_blank_tail(lines: Seq<Seq<char>>)
    ensures
        without_blank_tail(lines).len() <= lines.len(),
        without_blank_tail(lines) == lines.take(without_blank_tail(lines).len() as int),
        without_blank_tail(lines).len() == 0 || without_blank_tail(lines).last().len() > 0,
    decreases lines.len(),
{
    if lines.len() > 0 && lines.last().len() == 0 {
        lemma_without_blank_tail(lines.drop_last());
    }
}

/// Trimming the joined lines takes the blank lines off the end, where no
/// line ends in white space.
proof fn lemma_trim_join(lines: Seq<Seq<char>>)
    requires
        forall|i: int| 0 <= i < lines.len() ==> is_trimmed(#[trigger] lines[i]),
    ensures
        trim_end_of(join_of(lines, seq!['\n'])) == join_of(without_blank_tail(lines), seq!['\n']),
    decreases lines.len(),
{
    let newline = seq!['\n'];
    if lines.len() == 1 {
        if lines[0].len() == 0 {
            assert(without_blank_tail(lines) == without_blank_tail(lines.drop_last()));
        }
    } else if lines.len() > 1 {
        let init = lines.drop_last();
        lemma_trim_join(init);
        if lines.last().len() == 0 {
            assert(join_of(lines, newline).drop_last() =~= join_of(init, newline));
        }
    }
}

/// A text in canonical form is left as it is: bringing a text into
/// canonical form twice gives the same as doing so once.
pub proof fn lemma_normalize_idempotent(sql: Seq<char>)
    ensures
        normalized_of(normalized_of(sql)) == normalized_of(sql),
{
    let pieces = split_of(sql, '\n');
    let lines = trimmed_lines_of(pieces);
    lemma_split_pieces(sql, '\n');
    assert forall|i: int| 0 <= i < lines.len() implies is_trimmed(#[trigger] lines[i]) && free_of(
        lines[i],
        '\n',
    ) by {
        lemma_trim_end(pieces[i]);
    }
    // Once: the trimmed lines, joined, without the blank lines at the end.
    lemma_trim_join(lines);
    let kept = without_blank_tail(lines);
    lemma_without_blank_tail(lines);
    if kept.len() > 0 {
        // Twice: splitting gives the kept lines back, trimming leaves each
        // as it is, and there is no blank line at the end to take off.
        lemma_split_join(kept, '\n');
        assert(trimmed_lines_of(kept) =~= kept);
        lemma_trim_join(kept);
    }
}

} // verus!
