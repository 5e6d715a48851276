//! The report of a plan, as lines of styled text. How a style looks on a
//! terminal is left to the caller that prints the lines.

use crate::text::{
    append_decimal, append_str, chars_of, decimal_of, lemma_texts_of_push, lines, lines_of,
    qualified_name_of, seqs_of, starts_with, string_of, texts_of,
};
use crate::types::diff_result::{
    diff_views, summary_of, DiffOperation, DiffResult, DiffSummary, TableDiff, TableDiffView,
};
use vstd::prelude::*;

verus! {

/// The look of a piece of text.
#[derive(Debug, Clone, Copy, PartialEq, Eq, Structural)]
pub enum SpanStyle {
    Plain,
    Bold,
    /// Something that is created or added.
    Create,
    /// Something that is updated.
    Update,
    /// Something that is deleted or removed.
    Delete,
    /// Something that stays as it is.
    Unchanged,
    /// Good news.
    Success,
}

/// A piece of text with its look.
#[derive(Debug, Clone, PartialEq)]
pub struct Span {
    pub style: SpanStyle,
    pub text: String,
}

/// Mathematical content of a [`Span`].
pub ghost struct SpanView {
    pub style: SpanStyle,
    pub text: Seq<char>,
}

impl View for Span {
    type V = SpanView;

    open spec fn view(&self) -> SpanView {
        SpanView { style: self.style, text: self.text@ }
    }
}

/// The views of the spans of a line.
pub open spec fn line_view(line: Seq<Span>) -> Seq<SpanView> {
    line.map_values(|s: Span| s@)
}

/// The views of the lines of a report.
pub open spec fn report_view(lines: Seq<Vec<Span>>) -> Seq<Seq<SpanView>> {
    lines.map_values(|l: Vec<Span>| line_view(l@))
}

/// A span of the given look and text.
pub open spec fn span_of(style: SpanStyle, text: Seq<char>) -> SpanView {
    SpanView { style, text }
}

/// Whether `a` comes before `b` in the order of the dictionary, character
/// by character.
pub open spec fn lex_less(a: Seq<char>, b: Seq<char>) -> bool
    decreases a.len(),
{
    if b.len() == 0 {
        false
    } else if a.len() == 0 {
        true
    } else if a[0] != b[0] {
        (a[0] as int) < (b[0] as int)
    } else {
        lex_less(a.skip(1), b.skip(1))
    }
}

/// Whether every text of `list` comes before the texts after it.
pub open spec fn strictly_sorted(list: Seq<Seq<char>>) -> bool {
    forall|i: int, j: int| 0 <= i < j < list.len() ==> lex_less(list[i], list[j])
}

/// Of two different texts one comes before the other.
proof fn lemma_lex_total(a: Seq<char>, b: Seq<char>)
    ensures
        lex_less(a, b) || lex_less(b, a) || a == b,
    decreases a.len(),
{
    if a.len() == 0 || b.len() == 0 {
        if a.len() == 0 && b.len() == 0 {
            assert(a =~= b);
        }
    } else if a[0] == b[0] {
        lemma_lex_total(a.skip(1), b.skip(1));
        if a.skip(1) == b.skip(1) {
            assert(a =~= seq![a[0]] + a.skip(1));
            assert(b =~= seq![b[0]] + b.skip(1));
        }
    }
}

/// What comes before a text comes before all that the text comes before.
proof fn lemma_lex_transitive(a: Seq<char>, b: Seq<char>, c: Seq<char>)
    requires
        lex_less(a, b),
        lex_less(b, c),
    ensures
        lex_less(a, c),
    decreases a.len(),
{
    if a.len() > 0 && a[0] == b[0] && b[0] == c[0] {
        lemma_lex_transitive(a.skip(1), b.skip(1), c.skip(1));
    }
}

/// Whether `a` comes before `b` in the order of the dictionary.
fn precedes(a: &Vec<char>, b: &Vec<char>) -> (less: bool)
    ensures
        less == lex_less(a@, b@),
{
    let mut i: usize = 0;
    assert(a@.skip(0) == a@ && b@.skip(0) == b@);
    while i < a.len() && i < b.len() && a[i] == b[i]
        invariant
            i <= a.len(),
            i <= b.len(),
            lex_less(a@, b@) == lex_less(a@.skip(i as int), b@.skip(i as int)),
        decreases a.len() - i,
    {
        assert(a@.skip(i as int).skip(1) == a@.skip(i + 1));
        assert(b@.skip(i as int).skip(1) == b@.skip(i + 1));
        i = i + 1;
    }
    if i >= b.len() {
        assert(b@.skip(i as int).len() == 0);
        false
    } else if i >= a.len() {
        assert(a@.skip(i as int).len() == 0);
        true
    } else {
        assert(a@.skip(i as int)[0] == a@[i as int]);
        assert(b@.skip(i as int)[0] == b@[i as int]);
        code_point(a[i]) < code_point(b[i])
    }
}

/// The number of a character.
fn code_point(c: char) -> (n: u32)
    ensures
        n == c as int,
{
    c as u32
}

/// Puts `x` into the sorted list, where it is not there yet.
fn insert_sorted(list: &mut Vec<Vec<char>>, x: Vec<char>)
    requires
        strictly_sorted(seqs_of(old(list)@)),
    ensures
        strictly_sorted(seqs_of(final(list)@)),
        forall|y: Seq<char>|
            seqs_of(final(list)@).contains(y) <==> seqs_of(old(list)@).contains(y) || y == x@,
{
    let ghost before = seqs_of(list@);
    let mut at: usize = 0;
    while at < list.len() && precedes(&list[at], &x)
        invariant
            at <= list.len(),
            before == seqs_of(list@),
            forall|j: int| 0 <= j < at ==> lex_less(before[j], x@),
        decreases list.len() - at,
    {
        at = at + 1;
    }
    if at < list.len() && !precedes(&x, &list[at]) {
        proof {
            lemma_lex_total(x@, before[at as int]);
            assert(before[at as int] == x@);
            assert forall|y: Seq<char>| before.contains(y) || y == x@ implies before.contains(
                y,
            ) by {}
        }
        return ;
    }
    proof {
        lemma_seqs_of_insert(list@, at as int, x);
        assert forall|k: int| at <= k < before.len() implies lex_less(x@, before[k]) by {
            if k > at {
                lemma_lex_transitive(x@, before[at as int], before[k]);
            }
        }
    }
    list.insert(at, x);
    proof {
        let after = seqs_of(list@);
        assert(after == before.insert(at as int, x@));
        assert forall|i: int, j: int| 0 <= i < j < after.len() implies lex_less(
            after[i],
            after[j],
        ) by {
            if j < at {
                assert(after[i] == before[i] && after[j] == before[j]);
            } else if j == at {
                assert(after[i] == before[i]);
            } else if i == at {
                assert(after[j] == before[j - 1]);
            } else if i < at {
                assert(after[i] == before[i] && after[j] == before[j - 1]);
                lemma_lex_transitive(before[i], x@, before[j - 1]);
            } else {
                assert(after[i] == before[i - 1] && after[j] == before[j - 1]);
            }
        }
        assert forall|y: Seq<char>| after.contains(y) <==> before.contains(y) || y == x@ by {
            if after.contains(y) {
                let k = choose|k: int| 0 <= k < after.len() && after[k] == y;
                if k < at {
                    assert(before[k] == y);
                } else if k > at {
                    assert(before[k - 1] == y);
                }
            }
            if before.contains(y) {
                let k = choose|k: int| 0 <= k < before.len() && before[k] == y;
                if k < at {
                    assert(after[k] == y);
                } else {
                    assert(after[k + 1] == y);
                }
            }
            if y == x@ {
                assert(after[at as int] == y);
            }
        }
    }
}

/// Inserting into a vector of character vectors inserts the view into the
/// views.
proof fn lemma_seqs_of_insert(v: Seq<Vec<char>>, at: int, x: Vec<char>)
    requires
        0 <= at <= v.len(),
    ensures
        seqs_of(v.insert(at, x)) == seqs_of(v).insert(at, x@),
{
    assert(seqs_of(v.insert(at, x)) =~= seqs_of(v).insert(at, x@));
}

/// Whether `databases` are the databases of the tables to create: each
/// once, in the order of the dictionary.
pub open spec fn is_created_databases(databases: Seq<Seq<char>>, diffs: Seq<TableDiffView>) -> bool {
    &&& strictly_sorted(databases)
    &&& forall|name: Seq<char>|
        databases.contains(name) <==> exists|i: int|
            0 <= i < diffs.len() && (#[trigger] diffs[i]).operation == DiffOperation::Create
                && diffs[i].database_name == name
}

/// The databases of the tables to create, each once, in the order of the
/// dictionary. They are made sure of before the tables are created.
pub fn created_databases(table_diffs: &Vec<TableDiff>) -> (databases: Vec<String>)
    ensures
        is_created_databases(texts_of(databases@), diff_views(table_diffs@)),
{
    let mut names: Vec<Vec<char>> = Vec::new();
    let ghost diffs = diff_views(table_diffs@);
    let mut i: usize = 0;
    assert(seqs_of(names@) =~= Seq::<Seq<char>>::empty());
    while i < table_diffs.len()
        invariant
            i <= table_diffs.len(),
            diffs == diff_views(table_diffs@),
            strictly_sorted(seqs_of(names@)),
            forall|name: Seq<char>|
                seqs_of(names@).contains(name) <==> exists|k: int|
                    0 <= k < i && (#[trigger] diffs[k]).operation == DiffOperation::Create
                        && diffs[k].database_name == name,
        decreases table_diffs.len() - i,
    {
        let ghost before = seqs_of(names@);
        let diff = &table_diffs[i];
        assert(diffs[i as int] == diff@);
        match diff.operation {
            DiffOperation::Create => {
                let name = chars_of(diff.database_name.as_str());
                insert_sorted(&mut names, name);
                proof {
                    let after = seqs_of(names@);
                    assert forall|y: Seq<char>| after.contains(y) <==> exists|k: int|
                        0 <= k < i + 1 && (#[trigger] diffs[k]).operation == DiffOperation::Create
                            && diffs[k].database_name == y by {
                        if after.contains(y) {
                            if before.contains(y) {
                                let k = choose|k: int|
                                    0 <= k < i && (#[trigger] diffs[k]).operation
                                        == DiffOperation::Create && diffs[k].database_name == y;
                                assert(0 <= k < i + 1);
                            } else {
                                assert(diffs[i as int].database_name == y);
                            }
                        }
                        if exists|k: int|
                            0 <= k < i + 1 && (#[trigger] diffs[k]).operation
                                == DiffOperation::Create && diffs[k].database_name == y {
                            let k = choose|k: int|
                                0 <= k < i + 1 && (#[trigger] diffs[k]).operation
                                    == DiffOperation::Create && diffs[k].database_name == y;
                            if k < i {
                                assert(before.contains(y));
                            }
                        }
                    }
                }
            },
            _ => {
                proof {
                    assert forall|y: Seq<char>| before.contains(y) <==> exists|k: int|
                        0 <= k < i + 1 && (#[trigger] diffs[k]).operation == DiffOperation::Create
                            && diffs[k].database_name == y by {
                        if before.contains(y) {
                            let k = choose|k: int|
                                0 <= k < i && (#[trigger] diffs[k]).operation
                                    == DiffOperation::Create && diffs[k].database_name == y;
                            assert(0 <= k < i + 1);
                        }
                        if exists|k: int|
                            0 <= k < i + 1 && (#[trigger] diffs[k]).operation
                                == DiffOperation::Create && diffs[k].database_name == y {
                            let k = choose|k: int|
                                0 <= k < i + 1 && (#[trigger] diffs[k]).operation
                                    == DiffOperation::Create && diffs[k].database_name == y;
                            assert(k < i);
                        }
                    }
                }
            },
        }
        i = i + 1;
    }
    let mut databases: Vec<String> = Vec::new();
    let mut j: usize = 0;
    while j < names.len()
        invariant
            j <= names.len(),
            texts_of(databases@) =~= seqs_of(names@).take(j as int),
        decreases names.len() - j,
    {
        let name = string_of(&names[j]);
        proof {
            lemma_texts_of_push(databases@, name);
            assert(seqs_of(names@).take(j + 1) =~= seqs_of(names@).take(j as int).push(name@));
        }
        databases.push(name);
        j = j + 1;
    }
    assert(seqs_of(names@).take(names.len() as int) =~= seqs_of(names@));
    databases
}

/// The line without text.
pub open spec fn blank_line() -> Seq<SpanView> {
    Seq::<SpanView>::empty()
}

/// The line that holds one plain text.
pub open spec fn plain_line(text: Seq<char>) -> Seq<SpanView> {
    seq![span_of(SpanStyle::Plain, text)]
}

/// The text that sums up a plan.
pub open spec fn summary_text_of(summary: DiffSummary) -> Seq<char> {
    "Plan: "@ + decimal_of(summary.to_add as nat) + " to add, "@ + decimal_of(
        summary.to_change as nat,
    ) + " to change, "@ + decimal_of(summary.to_destroy as nat) + " to destroy."@
}

/// The lines that announce the databases to make sure of.
pub open spec fn database_lines_of(databases: Seq<Seq<char>>) -> Seq<Seq<SpanView>>
    decreases databases.len(),
{
    if databases.len() == 0 {
        Seq::<Seq<SpanView>>::empty()
    } else {
        database_lines_of(databases.drop_last()) + seq![
            seq![
                span_of(SpanStyle::Create, "+"@),
                span_of(SpanStyle::Plain, " database: "@),
                span_of(SpanStyle::Create, databases.last()),
            ],
            plain_line("  Will create database if it does not exist"@),
            blank_line(),
        ]
    }
}

/// The line that names a table under the mark of its operation.
pub open spec fn heading_of(style: SpanStyle, mark: Seq<char>, name: Seq<char>) -> Seq<SpanView> {
    seq![span_of(style, mark), span_of(SpanStyle::Plain, " "@), span_of(style, name)]
}

/// The look of a line of a unified diff: added lines and removed lines
/// stand out, the header lines `+++` and `---` do not.
pub open spec fn diff_line_style(line: Seq<char>) -> SpanStyle {
    if "+"@.is_prefix_of(line) && !"+++"@.is_prefix_of(line) {
        SpanStyle::Create
    } else if "-"@.is_prefix_of(line) && !"---"@.is_prefix_of(line) {
        SpanStyle::Delete
    } else {
        SpanStyle::Plain
    }
}

/// The lines of a unified diff, each with its look.
pub open spec fn diff_text_lines_of(text: Seq<char>) -> Seq<Seq<SpanView>> {
    lines_of(text).map_values(|l: Seq<char>| seq![span_of(diff_line_style(l), l)])
}

/// The lines that report the decision for one table. A table that stays
/// as it is is reported only where `show_unchanged` asks for it.
pub open spec fn table_lines_of(d: TableDiffView, show_unchanged: bool) -> Seq<Seq<SpanView>> {
    let name = qualified_name_of(d.database_name, d.table_name);
    match d.operation {
        DiffOperation::Create => seq![
            heading_of(SpanStyle::Create, "+"@, name),
            plain_line("  Will create table"@),
            blank_line(),
        ],
        DiffOperation::Update => seq![
            heading_of(SpanStyle::Update, "~"@, name),
            plain_line("  Will update table"@),
        ] + match d.text_diff {
            Some(text) => diff_text_lines_of(text),
            None => Seq::<Seq<SpanView>>::empty(),
        } + seq![blank_line()],
        DiffOperation::Delete => seq![
            heading_of(SpanStyle::Delete, "-"@, name),
            plain_line("  Will destroy table"@),
            blank_line(),
        ],
        DiffOperation::NoChange => if show_unchanged {
            seq![
                seq![span_of(SpanStyle::Plain, "  "@), span_of(SpanStyle::Unchanged, name)],
                plain_line("  No changes"@),
                blank_line(),
            ]
        } else {
            Seq::<Seq<SpanView>>::empty()
        },
    }
}

/// The lines that report the decisions for all tables, in their order.
pub open spec fn all_table_lines_of(diffs: Seq<TableDiffView>, show_unchanged: bool) -> Seq<
    Seq<SpanView>,
>
    decreases diffs.len(),
{
    if diffs.len() == 0 {
        Seq::<Seq<SpanView>>::empty()
    } else {
        all_table_lines_of(diffs.drop_last(), show_unchanged) + table_lines_of(
            diffs.last(),
            show_unchanged,
        )
    }
}

/// The report of a plan: the summary; then, where nothing changes, the
/// word that nothing does; else the databases to make sure of and the
/// decisions for the tables.
pub open spec fn report_of(
    diffs: Seq<TableDiffView>,
    databases: Seq<Seq<char>>,
    show_unchanged: bool,
) -> Seq<Seq<SpanView>> {
    seq![seq![span_of(SpanStyle::Bold, summary_text_of(summary_of(diffs)))]] + if summary_of(
        diffs,
    ).is_empty() {
        seq![
            blank_line(),
            seq![
                span_of(
                    SpanStyle::Success,
                    "No changes. Your infrastructure matches the configuration."@,
                ),
            ],
        ]
    } else {
        seq![blank_line()] + database_lines_of(databases) + all_table_lines_of(
            diffs,
            show_unchanged,
        )
    }
}

/// A span of the given look and text.
fn span(style: SpanStyle, text: &str) -> (s: Span)
    ensures
        s@ == span_of(style, text@),
{
    Span { style, text: text.to_owned() }
}

/// Adds a line to a report.
fn push_line(report: &mut Vec<Vec<Span>>, line: Vec<Span>)
    ensures
        report_view(final(report)@) == report_view(old(report)@).push(line_view(line@)),
{
    report.push(line);
}

/// Adds the line without text to a report.
fn push_blank(report: &mut Vec<Vec<Span>>)
    ensures
        report_view(final(report)@) == report_view(old(report)@).push(blank_line()),
{
    let line: Vec<Span> = Vec::new();
    assert(line_view(line@) =~= blank_line());
    push_line(report, line);
}

/// Adds a line of one span to a report.
fn push_single(report: &mut Vec<Vec<Span>>, style: SpanStyle, text: &str)
    ensures
        report_view(final(report)@) == report_view(old(report)@).push(
            seq![span_of(style, text@)],
        ),
{
    let mut line: Vec<Span> = Vec::new();
    line.push(span(style, text));
    assert(line_view(line@) =~= seq![span_of(style, text@)]);
    push_line(report, line);
}

/// Adds the line that names a table under the mark of its operation.
fn push_heading(report: &mut Vec<Vec<Span>>, style: SpanStyle, mark: &str, name: &str)
    ensures
        report_view(final(report)@) == report_view(old(report)@).push(
            heading_of(style, mark@, name@),
        ),
{
    let mut line: Vec<Span> = Vec::new();
    line.push(span(style, mark));
    line.push(span(SpanStyle::Plain, " "));
    line.push(span(style, name));
    assert(line_view(line@) =~= heading_of(style, mark@, name@));
    push_line(report, line);
}

/// The look of a line of a unified diff.
fn style_of_diff_line(line: &Vec<char>) -> (style: SpanStyle)
    ensures
        style == diff_line_style(line@),
{
    if starts_with(line, &chars_of("+")) && !starts_with(line, &chars_of("+++")) {
        SpanStyle::Create
    } else if starts_with(line, &chars_of("-")) && !starts_with(line, &chars_of("---")) {
        SpanStyle::Delete
    } else {
        SpanStyle::Plain
    }
}

/// Adds the lines of a unified diff to a report.
fn push_diff_text(report: &mut Vec<Vec<Span>>, text: &str)
    ensures
        report_view(final(report)@) == report_view(old(report)@) + diff_text_lines_of(text@),
{
    let ghost start = report_view(report@);
    let text_lines = lines(&chars_of(text));
    let ghost goal = diff_text_lines_of(text@);
    let mut i: usize = 0;
    while i < text_lines.len()
        invariant
            i <= text_lines.len(),
            seqs_of(text_lines@) == lines_of(text@),
            goal == diff_text_lines_of(text@),
            report_view(report@) == start + goal.take(i as int),
        decreases text_lines.len() - i,
    {
        let line = &text_lines[i];
        let style = style_of_diff_line(line);
        let content = string_of(line);
        push_single(report, style, content.as_str());
        i = i + 1;
    }
}

/// Adds the lines that report the decision for one table.
fn push_table_lines(report: &mut Vec<Vec<Span>>, diff: &TableDiff, show_unchanged: bool)
    ensures
        report_view(final(report)@) == report_view(old(report)@) + table_lines_of(
            diff@,
            show_unchanged,
        ),
{
    let name = diff.qualified_name();
    match diff.operation {
        DiffOperation::Create => {
            push_heading(report, SpanStyle::Create, "+", name.as_str());
            push_single(report, SpanStyle::Plain, "  Will create table");
            push_blank(report);
        },
        DiffOperation::Update => {
            push_heading(report, SpanStyle::Update, "~", name.as_str());
            push_single(report, SpanStyle::Plain, "  Will update table");
            match &diff.text_diff {
                Some(text) => {
                    push_diff_text(report, text.as_str());
                },
                None => {},
            }
            push_blank(report);
        },
        DiffOperation::Delete => {
            push_heading(report, SpanStyle::Delete, "-", name.as_str());
            push_single(report, SpanStyle::Plain, "  Will destroy table");
            push_blank(report);
        },
        DiffOperation::NoChange => {
            if show_unchanged {
                let mut line: Vec<Span> = Vec::new();
                line.push(span(SpanStyle::Plain, "  "));
                line.push(span(SpanStyle::Unchanged, name.as_str()));
                assert(line_view(line@) =~= seq![
                    span_of(SpanStyle::Plain, "  "@),
                    span_of(SpanStyle::Unchanged, name@),
                ]);
                push_line(report, line);
                push_single(report, SpanStyle::Plain, "  No changes");
                push_blank(report);
            }
        },
    }
}

/// The text that sums up a plan.
pub fn summary_text(summary: &DiffSummary) -> (text: String)
    ensures
        text@ == summary_text_of(*summary),
{
    let mut v = chars_of("Plan: ");
    append_decimal(&mut v, summary.to_add as u64);
    append_str(&mut v, " to add, ");
    append_decimal(&mut v, summary.to_change as u64);
    append_str(&mut v, " to change, ");
    append_decimal(&mut v, summary.to_destroy as u64);
    append_str(&mut v, " to destroy.");
    string_of(&v)
}

/// Lays out the report of a plan, given the databases to make sure of.
pub fn render_report(
    diff_result: &DiffResult,
    databases: &Vec<String>,
    show_unchanged: bool,
) -> (report:
    Vec<Vec<Span>>)
    ensures
        report_view(report@) == report_of(diff_result@, texts_of(databases@), show_unchanged),
{
    let mut report: Vec<Vec<Span>> = Vec::new();
    let summary = summary_text(&diff_result.summary());
    push_single(&mut report, SpanStyle::Bold, summary.as_str());
    if diff_result.no_change() {
        push_blank(&mut report);
        push_single(
            &mut report,
            SpanStyle::Success,
            "No changes. Your infrastructure matches the configuration.",
        );
        return report;
    }
    push_blank(&mut report);
    let ghost names = texts_of(databases@);
    let ghost top = report_view(report@);
    let mut i: usize = 0;
    while i < databases.len()
        invariant
            i <= databases.len(),
            names == texts_of(databases@),
            report_view(report@) == top + database_lines_of(names.take(i as int)),
        decreases databases.len() - i,
    {
        proof {
            assert(names.take(i + 1).drop_last() =~= names.take(i as int));
        }
        let mut line: Vec<Span> = Vec::new();
        line.push(span(SpanStyle::Create, "+"));
        line.push(span(SpanStyle::Plain, " database: "));
        line.push(span(SpanStyle::Create, databases[i].as_str()));
        assert(line_view(line@) =~= seq![
            span_of(SpanStyle::Create, "+"@),
            span_of(SpanStyle::Plain, " database: "@),
            span_of(SpanStyle::Create, databases@[i as int]@),
        ]);
        push_line(&mut report, line);
        push_single(&mut report, SpanStyle::Plain, "  Will create database if it does not exist");
        push_blank(&mut report);
        i = i + 1;
    }
    assert(names.take(databases.len() as int) =~= names);
    let ghost middle = report_view(report@);
    let table_diffs = diff_result.table_diffs();
    let ghost diffs = diff_views(table_diffs@);
    let mut j: usize = 0;
    while j < table_diffs.len()
        invariant
            j <= table_diffs.len(),
            diffs == diff_views(table_diffs@),
            report_view(report@) == middle + all_table_lines_of(diffs.take(j as int), show_unchanged),
        decreases table_diffs.len() - j,
    {
        proof {
            assert(diffs.take(j + 1).drop_last() =~= diffs.take(j as int));
        }
        push_table_lines(&mut report, &table_diffs[j], show_unchanged);
        j = j + 1;
    }
    assert(diffs.take(table_diffs.len() as int) =~= diffs);
    report
}

/// Lays out the report of a plan: the summary, the databases that will be
/// made sure of, and the decision for every table.
pub fn diff_report(diff_result: &DiffResult, show_unchanged: bool) -> (report: Vec<Vec<Span>>)
    ensures
        exists|databases: Seq<Seq<char>>|
            is_created_databases(databases, diff_result@) && report_view(report@)
                == #[trigger] report_of(diff_result@, databases, show_unchanged),
{
    let databases = created_databases(diff_result.table_diffs());
    render_report(diff_result, &databases, show_unchanged)
}

} // verus!
