//! Line-based differences between two texts, computed by the `similar`
//! crate, and their rendering as a unified diff.

use crate::text::{append_str, chars_of, string_of};
use vstd::prelude::*;

verus! {

/// What a line of a diff says of its text.
#[derive(Debug, Clone, Copy, PartialEq, Eq, Structural)]
pub enum ChangeTag {
    /// The line stands in both texts.
    Equal,
    /// The line stands in the old text only.
    Delete,
    /// The line stands in the new text only.
    Insert,
}

/// One line of a diff.
#[derive(Debug, Clone, PartialEq)]
pub struct LineChange {
    pub tag: ChangeTag,
    /// The text of the line, with the line ending it has in its source.
    pub text: String,
    /// Whether the line is the last of its source and has no line ending.
    pub missing_newline: bool,
}

/// Mathematical content of a [`LineChange`].
pub ghost struct LineChangeView {
    pub tag: ChangeTag,
    pub text: Seq<char>,
    pub missing_newline: bool,
}

impl View for LineChange {
    type V = LineChangeView;

    open spec fn view(&self) -> LineChangeView {
        LineChangeView { tag: self.tag, text: self.text@, missing_newline: self.missing_newline }
    }
}

/// The views of the lines of one hunk.
pub open spec fn change_views(changes: Seq<LineChange>) -> Seq<LineChangeView> {
    changes.map_values(|c: LineChange| c@)
}

/// The views of a sequence of hunks.
pub open spec fn hunk_views(hunks: Seq<Vec<LineChange>>) -> Seq<Seq<LineChangeView>> {
    hunks.map_values(|h: Vec<LineChange>| change_views(h@))
}

/// The hunks of the unified diff that leads from `old` to `new`, as the
/// `similar` crate computes them by lines with three lines of context.
pub uninterp spec fn unified_hunks_of(old: Seq<char>, new: Seq<char>) -> Seq<Seq<LineChangeView>>;

/// `similar::TextDiff::from_lines`, then the hunks of its `unified_diff` and
/// the changes of each hunk, handed out as plain values. The outcome is only
/// named.
#[verifier::external_body]
pub(crate) fn unified_hunks(old: &str, new: &str) -> (hunks: Vec<Vec<LineChange>>)
    ensures
        hunk_views(hunks@) == unified_hunks_of(old@, new@),
{
    let mut hunks = Vec::new();
    for hunk in similar::TextDiff::from_lines(old, new).unified_diff().iter_hunks() {
        let mut changes = Vec::new();
        for change in hunk.iter_changes() {
            let tag = match change.tag() {
                similar::ChangeTag::Equal => ChangeTag::Equal,
                similar::ChangeTag::Delete => ChangeTag::Delete,
                similar::ChangeTag::Insert => ChangeTag::Insert,
            };
            let (text, missing_newline) = (change.value().to_string(), change.missing_newline());
            changes.push(LineChange { tag, text, missing_newline });
        }
        hunks.push(changes);
    }
    hunks
}

/// The sign that a unified diff puts in front of a line.
pub open spec fn sign_of(tag: ChangeTag) -> char {
    match tag {
        ChangeTag::Insert => '+',
        ChangeTag::Equal => ' ',
        ChangeTag::Delete => '-',
    }
}

/// One line of a unified diff: the sign, the text, and a line feed where
/// the text has none.
pub open spec fn change_text_of(change: LineChangeView) -> Seq<char> {
    seq![sign_of(change.tag)] + change.text + if change.missing_newline {
        seq!['\n']
    } else {
        Seq::<char>::empty()
    }
}

/// The lines of one hunk, one after the other.
pub open spec fn hunk_text_of(changes: Seq<LineChangeView>) -> Seq<char>
    decreases changes.len(),
{
    if changes.len() == 0 {
        Seq::<char>::empty()
    } else {
        hunk_text_of(changes.drop_last()) + change_text_of(changes.last())
    }
}

/// The lines of all hunks, one after the other.
pub open spec fn hunks_text_of(hunks: Seq<Seq<LineChangeView>>) -> Seq<char>
    decreases hunks.len(),
{
    if hunks.len() == 0 {
        Seq::<char>::empty()
    } else {
        hunks_text_of(hunks.drop_last()) + hunk_text_of(hunks.last())
    }
}

/// The unified diff of a table: two header lines that name the table on the
/// remote and on the local side, then the lines of the hunks.
pub open spec fn diff_text_of(table_name: Seq<char>, hunks: Seq<Seq<LineChangeView>>) -> Seq<char> {
    "--- remote: "@ + table_name + seq!['\n'] + "+++ local:  "@ + table_name + seq!['\n']
        + hunks_text_of(hunks)
}

/// Appends the lines of one hunk to `out`.
fn render_hunk(out: &mut Vec<char>, changes: &Vec<LineChange>)
    ensures
        final(out)@ == old(out)@ + hunk_text_of(change_views(changes@)),
{
    let ghost all = change_views(changes@);
    let ghost start = out@;
    let mut i: usize = 0;
    while i < changes.len()
        invariant
            i <= changes.len(),
            all == change_views(changes@),
            out@ == start + hunk_text_of(all.take(i as int)),
        decreases changes.len() - i,
    {
        proof {
            assert(all.take(i + 1).drop_last() =~= all.take(i as int));
        }
        let change = &changes[i];
        let sign = match change.tag {
            ChangeTag::Insert => '+',
            ChangeTag::Equal => ' ',
            ChangeTag::Delete => '-',
        };
        out.push(sign);
        append_str(out, change.text.as_str());
        if change.missing_newline {
            out.push('\n');
        }
        i = i + 1;
    }
    assert(all.take(changes.len() as int) =~= all);
}

/// Renders the hunks of a diff under the two header lines of a table.
pub fn render_sql_diff(table_name: &str, hunks: &Vec<Vec<LineChange>>) -> (text: String)
    ensures
        text@ == diff_text_of(table_name@, hunk_views(hunks@)),
{
    let mut out = chars_of("--- remote: ");
    append_str(&mut out, table_name);
    out.push('\n');
    append_str(&mut out, "+++ local:  ");
    append_str(&mut out, table_name);
    out.push('\n');
    let ghost head = out@;
    let ghost all = hunk_views(hunks@);
    let mut i: usize = 0;
    while i < hunks.len()
        invariant
            i <= hunks.len(),
            all == hunk_views(hunks@),
            out@ == head + hunks_text_of(all.take(i as int)),
        decreases hunks.len() - i,
    {
        proof {
            assert(all.take(i + 1).drop_last() =~= all.take(i as int));
        }
        render_hunk(&mut out, &hunks[i]);
        i = i + 1;
    }
    assert(all.take(hunks.len() as int) =~= all);
    string_of(&out)
}

/// The unified diff that leads from the remote definition of a table to
/// the local one.
pub fn format_sql_diff(table_name: &str, remote: &str, local: &str) -> (text: String)
    ensures
        text@ == diff_text_of(table_name@, unified_hunks_of(remote@, local@)),
{
    let hunks = unified_hunks(remote, local);
    render_sql_diff(table_name, &hunks)
}

} // verus!
