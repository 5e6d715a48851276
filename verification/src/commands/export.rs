//! Export of remote definitions to local files: what is written, and for
//! which databases.

use crate::text::{
    append_decimal, append_str, chars_of, decimal_of, find_char, first_index_of, join, join_of,
    lemma_seqs_of_push, lemma_texts_of_push, opt_text, same_chars, seqs_of, slice_of, string_of,
    texts_of,
};
use crate::types::query_execution::{QueryResult, QueryRow};
use vstd::prelude::*;

verus! {

/// The first cell of every row that has one, in the order of the rows.
pub open spec fn first_cells_of(rows: Seq<QueryRow>) -> Seq<Seq<char>>
    decreases rows.len(),
{
    if rows.len() == 0 {
        Seq::<Seq<char>>::empty()
    } else {
        let init = first_cells_of(rows.drop_last());
        if rows.last().columns@.len() > 0 {
            init.push(rows.last().columns@[0]@)
        } else {
            init
        }
    }
}

/// The definition text that the rows of an answer to `SHOW CREATE TABLE`
/// carry, one line of the text per row: the first cells, joined by line
/// feeds. There is none where no row has a cell.
pub open spec fn ddl_of_rows(rows: Seq<QueryRow>) -> Option<Seq<char>> {
    let lines = first_cells_of(rows);
    if lines.len() == 0 {
        None
    } else {
        Some(join_of(lines, seq!['\n']))
    }
}

/// Puts together the definition text from the rows of an answer to
/// `SHOW CREATE TABLE`, in which every row holds one line.
pub fn extract_ddl_from_query_result(result: &QueryResult) -> (ddl: Option<String>)
    ensures
        opt_text(ddl) == ddl_of_rows(result.rows@),
{
    let mut lines: Vec<Vec<char>> = Vec::new();
    let mut i: usize = 0;
    let ghost rows = result.rows@;
    while i < result.rows.len()
        invariant
            i <= result.rows.len(),
            rows == result.rows@,
            seqs_of(lines@) == first_cells_of(rows.take(i as int)),
        decreases result.rows.len() - i,
    {
        proof {
            assert(rows.take(i + 1).drop_last() =~= rows.take(i as int));
        }
        let row = &result.rows[i];
        if row.columns.len() > 0 {
            let line = chars_of(row.columns[0].as_str());
            proof {
                lemma_seqs_of_push(lines@, line);
            }
            lines.push(line);
        }
        i = i + 1;
    }
    assert(rows.take(result.rows.len() as int) =~= rows);
    if lines.len() == 0 {
        None
    } else {
        let mut newline: Vec<char> = Vec::new();
        newline.push('\n');
        Some(string_of(&join(&lines, &newline)))
    }
}

/// The database that a target names: what stands before its first dot.
/// A target without a dot names none.
pub open spec fn database_of_target(target: Seq<char>) -> Option<Seq<char>> {
    let dot = first_index_of(target, '.');
    if dot < target.len() {
        Some(target.take(dot))
    } else {
        None
    }
}

/// The databases that the targets name, each once, in the order in which
/// they first come.
pub open spec fn target_databases_of(targets: Seq<Seq<char>>) -> Seq<Seq<char>>
    decreases targets.len(),
{
    if targets.len() == 0 {
        Seq::<Seq<char>>::empty()
    } else {
        let init = target_databases_of(targets.drop_last());
        match database_of_target(targets.last()) {
            Some(database) => if init.contains(database) {
                init
            } else {
                init.push(database)
            },
            None => init,
        }
    }
}

/// Whether `list` holds the text `wanted`.
fn holds(list: &Vec<Vec<char>>, wanted: &Vec<char>) -> (found: bool)
    ensures
        found == seqs_of(list@).contains(wanted@),
{
    let ghost all = seqs_of(list@);
    let mut i: usize = 0;
    while i < list.len()
        invariant
            i <= list.len(),
            all == seqs_of(list@),
            forall|j: int| 0 <= j < i ==> all[j] != wanted@,
        decreases list.len() - i,
    {
        if same_chars(&list[i], wanted) {
            assert(all[i as int] == wanted@);
            return true;
        }
        i = i + 1;
    }
    false
}

/// The databases to export where targets are in force: those that the
/// targets name. The names are taken as they stand, so that no list of all
/// databases has to be asked for.
pub fn target_databases(targets: &[String]) -> (databases: Vec<String>)
    ensures
        texts_of(databases@) == target_databases_of(texts_of(targets@)),
{
    let mut names: Vec<Vec<char>> = Vec::new();
    let ghost all = texts_of(targets@);
    let mut i: usize = 0;
    while i < targets.len()
        invariant
            i <= targets.len(),
            all == texts_of(targets@),
            seqs_of(names@) == target_databases_of(all.take(i as int)),
        decreases targets.len() - i,
    {
        proof {
            assert(all.take(i + 1).drop_last() =~= all.take(i as int));
        }
        let target = chars_of(targets[i].as_str());
        let dot = find_char(&target, '.');
        if dot < target.len() {
            let database = slice_of(&target, 0, dot);
            if !holds(&names, &database) {
                proof {
                    lemma_seqs_of_push(names@, database);
                }
                names.push(database);
            }
        }
        i = i + 1;
    }
    assert(all.take(targets.len() as int) =~= all);
    let mut databases: Vec<String> = Vec::new();
    let mut j: usize = 0;
    while j < names.len()
        invariant
            j <= names.len(),
            texts_of(databases@) =~= seqs_of(names@).take(j as int),
        decreases names.len() - j,
    {
        let name = string_of(&names[j]);
        proof {
            lemma_texts_of_push(databases@, name);
        }
        databases.push(name);
        j = j + 1;
    }
    databases
}

/// The statement that asks for the definition of a table to export.
pub open spec fn export_query_of(database: Seq<char>, table: Seq<char>) -> Seq<char> {
    "SHOW CREATE TABLE `"@ + database + "`.`"@ + table + "`"@
}

/// The statement that asks for the definition of a table to export.
pub fn export_query(database: &str, table: &str) -> (query: String)
    ensures
        query@ == export_query_of(database@, table@),
{
    let mut v = chars_of("SHOW CREATE TABLE `");
    append_str(&mut v, database);
    append_str(&mut v, "`.`");
    append_str(&mut v, table);
    append_str(&mut v, "`");
    string_of(&v)
}

/// Whether a table is passed over because its file is there already: an
/// existing file is replaced only when overwriting was asked for.
pub fn keeps_existing_file(file_present: bool, overwrite: bool) -> (kept: bool)
    ensures
        kept == (file_present && !overwrite),
{
    file_present && !overwrite
}

/// What became of one table of an export.
#[derive(Debug, Clone, Copy, PartialEq, Eq, Structural)]
pub enum ExportOutcome {
    /// Its definition was written.
    Exported,
    /// Its file was there already and was kept.
    Skipped,
    /// Its definition could not be fetched or written.
    Failed,
}

/// How many tables of an export were written, passed over, and failed.
#[derive(Debug, Clone, Copy, PartialEq, Eq, Structural)]
pub struct ExportCounts {
    pub exported: usize,
    pub skipped: usize,
    pub errors: usize,
}

/// Number of outcomes in `outcomes` that are `wanted`.
pub open spec fn outcome_count(outcomes: Seq<ExportOutcome>, wanted: ExportOutcome) -> nat
    decreases outcomes.len(),
{
    if outcomes.len() == 0 {
        0
    } else {
        outcome_count(outcomes.drop_last(), wanted) + if outcomes.last() == wanted {
            1nat
        } else {
            0nat
        }
    }
}

/// No more outcomes are of a kind than there are outcomes.
proof fn lemma_outcome_count_bound(outcomes: Seq<ExportOutcome>, wanted: ExportOutcome)
    ensures
        outcome_count(outcomes, wanted) <= outcomes.len(),
    decreases outcomes.len(),
{
    if outcomes.len() > 0 {
        lemma_outcome_count_bound(outcomes.drop_last(), wanted);
    }
}

/// Counts the outcomes of an export.
pub fn tally(outcomes: &Vec<ExportOutcome>) -> (counts: ExportCounts)
    ensures
        counts.exported == outcome_count(outcomes@, ExportOutcome::Exported),
        counts.skipped == outcome_count(outcomes@, ExportOutcome::Skipped),
        counts.errors == outcome_count(outcomes@, ExportOutcome::Failed),
{
    let mut counts = ExportCounts { exported: 0, skipped: 0, errors: 0 };
    let mut i: usize = 0;
    while i < outcomes.len()
        invariant
            i <= outcomes.len(),
            counts.exported == outcome_count(outcomes@.take(i as int), ExportOutcome::Exported),
            counts.skipped == outcome_count(outcomes@.take(i as int), ExportOutcome::Skipped),
            counts.errors == outcome_count(outcomes@.take(i as int), ExportOutcome::Failed),
        decreases outcomes.len() - i,
    {
        proof {
            assert(outcomes@.take(i + 1).drop_last() =~= outcomes@.take(i as int));
            lemma_outcome_count_bound(outcomes@.take(i + 1), ExportOutcome::Exported);
            lemma_outcome_count_bound(outcomes@.take(i + 1), ExportOutcome::Skipped);
            lemma_outcome_count_bound(outcomes@.take(i + 1), ExportOutcome::Failed);
        }
        match outcomes[i] {
            ExportOutcome::Exported => {
                counts.exported = counts.exported + 1;
            },
            ExportOutcome::Skipped => {
                counts.skipped = counts.skipped + 1;
            },
            ExportOutcome::Failed => {
                counts.errors = counts.errors + 1;
            },
        }
        i = i + 1;
    }
    assert(outcomes@.take(outcomes.len() as int) =~= outcomes@);
    counts
}

/// The line that sums up an export.
pub open spec fn export_summary_of(counts: ExportCounts) -> Seq<char> {
    if counts.skipped > 0 || counts.errors > 0 {
        "Export complete! "@ + decimal_of(counts.exported as nat) + " exported, "@ + decimal_of(
            counts.skipped as nat,
        ) + " skipped, "@ + decimal_of(counts.errors as nat) + " errors."@
    } else {
        "Export complete! "@ + decimal_of(counts.exported as nat) + " tables exported."@
    }
}

/// The line that sums up an export.
pub fn export_summary(counts: &ExportCounts) -> (line: String)
    ensures
        line@ == export_summary_of(*counts),
{
    let mut v = chars_of("Export complete! ");
    append_decimal(&mut v, counts.exported as u64);
    if counts.skipped > 0 || counts.errors > 0 {
        append_str(&mut v, " exported, ");
        append_decimal(&mut v, counts.skipped as u64);
        append_str(&mut v, " skipped, ");
        append_decimal(&mut v, counts.errors as u64);
        append_str(&mut v, " errors.");
    } else {
        append_str(&mut v, " tables exported.");
    }
    string_of(&v)
}

} // verus!
