//! Applying a plan: which statements are run for every table, in which
//! order, and what is reported of them. The statements are run one table
//! after the other, in the order of the plan.

use crate::text::{
    append_decimal, append_str, chars_of, decimal_of, lemma_texts_of_push, qualified_name_of,
    same_chars, string_of, texts_of, trim, trim_of,
};
use crate::types::diff_result::{
    diff_views, DiffOperation, DiffSummary, TableDiff, TableDiffView,
};
use vstd::prelude::*;

verus! {

/// The statement that makes sure that a database exists.
pub open spec fn create_database_of(database: Seq<char>) -> Seq<char> {
    "CREATE DATABASE IF NOT EXISTS `"@ + database + "`"@
}

/// The statement that removes a table, if it exists.
pub open spec fn drop_table_of(database: Seq<char>, table: Seq<char>) -> Seq<char> {
    "DROP TABLE IF EXISTS `"@ + database + "`.`"@ + table + "`"@
}

/// The statement that makes sure that a database exists.
pub fn create_database_query(database: &str) -> (query: String)
    ensures
        query@ == create_database_of(database@),
{
    let mut v = chars_of("CREATE DATABASE IF NOT EXISTS `");
    append_str(&mut v, database);
    append_str(&mut v, "`");
    string_of(&v)
}

/// The statement that removes a table, if it exists.
pub fn drop_table_query(database: &str, table: &str) -> (query: String)
    ensures
        query@ == drop_table_of(database@, table@),
{
    let mut v = chars_of("DROP TABLE IF EXISTS `");
    append_str(&mut v, database);
    append_str(&mut v, "`.`");
    append_str(&mut v, table);
    append_str(&mut v, "`");
    string_of(&v)
}

/// The statements that are run for a table before its local definition:
/// a table is created after its database was made sure of; it is updated
/// by removing and creating it; it is deleted by removing it.
pub open spec fn statements_of(d: TableDiffView) -> Seq<Seq<char>> {
    match d.operation {
        DiffOperation::Create => seq![create_database_of(d.database_name)],
        DiffOperation::Update => seq![
            drop_table_of(d.database_name, d.table_name),
            create_database_of(d.database_name),
        ],
        DiffOperation::Delete => seq![drop_table_of(d.database_name, d.table_name)],
        DiffOperation::NoChange => Seq::<Seq<char>>::empty(),
    }
}

/// Whether the local definition of the table is run after the statements
/// of `statements_of`.
pub open spec fn runs_definition(operation: DiffOperation) -> bool {
    operation == DiffOperation::Create || operation == DiffOperation::Update
}

/// The statements to run for a table before its local definition.
pub fn statements_for(diff: &TableDiff) -> (statements: Vec<String>)
    ensures
        texts_of(statements@) == statements_of(diff@),
{
    let mut statements: Vec<String> = Vec::new();
    match diff.operation {
        DiffOperation::Create => {
            let create = create_database_query(diff.database_name.as_str());
            proof {
                lemma_texts_of_push(statements@, create);
            }
            statements.push(create);
        },
        DiffOperation::Update => {
            let drop = drop_table_query(diff.database_name.as_str(), diff.table_name.as_str());
            proof {
                lemma_texts_of_push(statements@, drop);
            }
            statements.push(drop);
            let create = create_database_query(diff.database_name.as_str());
            proof {
                lemma_texts_of_push(statements@, create);
            }
            statements.push(create);
        },
        DiffOperation::Delete => {
            let drop = drop_table_query(diff.database_name.as_str(), diff.table_name.as_str());
            proof {
                lemma_texts_of_push(statements@, drop);
            }
            statements.push(drop);
        },
        DiffOperation::NoChange => {},
    }
    statements
}

/// Whether the local definition of the table is run after the statements
/// of `statements_for`.
pub fn needs_definition(operation: DiffOperation) -> (b: bool)
    ensures
        b == runs_definition(operation),
{
    match operation {
        DiffOperation::Create => true,
        DiffOperation::Update => true,
        _ => false,
    }
}

/// The word that is shown while an operation runs.
pub open spec fn progress_word_of(operation: DiffOperation) -> Seq<char> {
    match operation {
        DiffOperation::Create => "Creating..."@,
        DiffOperation::Update => "Modifying..."@,
        DiffOperation::Delete => "Destroying..."@,
        DiffOperation::NoChange => ""@,
    }
}

/// The word that is shown when an operation is done.
pub open spec fn done_word_of(operation: DiffOperation) -> Seq<char> {
    match operation {
        DiffOperation::Create => "Created"@,
        DiffOperation::Update => "Modified"@,
        DiffOperation::Delete => "Destroyed"@,
        DiffOperation::NoChange => ""@,
    }
}

/// The word that is shown while an operation runs.
pub fn progress_word(operation: DiffOperation) -> (word: String)
    ensures
        word@ == progress_word_of(operation),
{
    match operation {
        DiffOperation::Create => "Creating...".to_string(),
        DiffOperation::Update => "Modifying...".to_string(),
        DiffOperation::Delete => "Destroying...".to_string(),
        DiffOperation::NoChange => "".to_string(),
    }
}

/// The word that is shown when an operation is done.
pub fn done_word(operation: DiffOperation) -> (word: String)
    ensures
        word@ == done_word_of(operation),
{
    match operation {
        DiffOperation::Create => "Created".to_string(),
        DiffOperation::Update => "Modified".to_string(),
        DiffOperation::Delete => "Destroyed".to_string(),
        DiffOperation::NoChange => "".to_string(),
    }
}

/// Positions in `diffs` of the tables to create, update or delete, in
/// their order.
pub open spec fn change_positions_of(diffs: Seq<TableDiffView>) -> Seq<int>
    decreases diffs.len(),
{
    if diffs.len() == 0 {
        Seq::<int>::empty()
    } else {
        let init = change_positions_of(diffs.drop_last());
        if diffs.last().operation != DiffOperation::NoChange {
            init.push(diffs.len() - 1)
        } else {
            init
        }
    }
}

/// The tables to work on, as positions in the plan: those to create,
/// update or delete, in the order of the plan. The place of a position in
/// the result, counted from 1, is the number under which its progress is
/// reported.
pub fn change_positions(table_diffs: &Vec<TableDiff>) -> (positions: Vec<usize>)
    ensures
        positions@.map_values(|p: usize| p as int) == change_positions_of(diff_views(table_diffs@)),
        forall|k: int| 0 <= k < positions@.len() ==> (#[trigger] positions@[k]) < table_diffs@.len(),
{
    let mut positions: Vec<usize> = Vec::new();
    let ghost all = diff_views(table_diffs@);
    let mut i: usize = 0;
    while i < table_diffs.len()
        invariant
            i <= table_diffs.len(),
            all == diff_views(table_diffs@),
            positions@.map_values(|p: usize| p as int) == change_positions_of(all.take(i as int)),
            forall|k: int| 0 <= k < positions@.len() ==> (#[trigger] positions@[k]) < i,
        decreases table_diffs.len() - i,
    {
        proof {
            assert(all.take(i + 1).drop_last() =~= all.take(i as int));
        }
        if table_diffs[i].is_change() {
            positions.push(i);
        }
        i = i + 1;
    }
    assert(all.take(table_diffs.len() as int) =~= all);
    positions
}

/// Whether an answer to the question for approval approves: only the word
/// `yes`, white space around it set aside, does.
pub fn is_approval(input: &str) -> (approved: bool)
    ensures
        approved == (trim_of(input@) == "yes"@),
{
    same_chars(&trim(&chars_of(input)), &chars_of("yes"))
}

/// What is said of a table whose operation failed with the error `error`:
/// the table, the error, and what may have caused it.
pub open spec fn failure_message_of(d: TableDiffView, error: Seq<char>) -> Seq<char> {
    let name = qualified_name_of(d.database_name, d.table_name);
    let file = d.database_name + "/"@ + d.table_name + ".sql"@;
    match d.operation {
        DiffOperation::Create => "Failed to create table "@ + name + ". Error: "@ + error
            + "\n\nPossible causes:\n  - Invalid SQL syntax in "@ + file
            + "\n  - Insufficient AWS permissions\n  - Network connectivity issues"@,
        DiffOperation::Update => "Failed to update table "@ + name + ". Error: "@ + error
            + "\n\nPossible causes:\n  - Invalid SQL syntax in "@ + file
            + "\n  - Table is locked or being accessed\n  - Insufficient AWS permissions\n  - Network connectivity issues"@,
        _ => "Failed to delete table "@ + name + ". Error: "@ + error
            + "\n\nPossible causes:\n  - Table is locked or being accessed\n  - Insufficient AWS permissions\n  - Network connectivity issues"@,
    }
}

/// What is said of a table whose operation failed.
pub fn failure_message(diff: &TableDiff, error: &str) -> (message: String)
    ensures
        message@ == failure_message_of(diff@, error@),
{
    let mut v = match diff.operation {
        DiffOperation::Create => chars_of("Failed to create table "),
        DiffOperation::Update => chars_of("Failed to update table "),
        _ => chars_of("Failed to delete table "),
    };
    append_str(&mut v, diff.database_name.as_str());
    v.push('.');
    append_str(&mut v, diff.table_name.as_str());
    append_str(&mut v, ". Error: ");
    append_str(&mut v, error);
    match diff.operation {
        DiffOperation::Create => {
            append_str(&mut v, "\n\nPossible causes:\n  - Invalid SQL syntax in ");
            append_str(&mut v, diff.database_name.as_str());
            append_str(&mut v, "/");
            append_str(&mut v, diff.table_name.as_str());
            append_str(&mut v, ".sql");
            append_str(
                &mut v,
                "\n  - Insufficient AWS permissions\n  - Network connectivity issues",
            );
        },
        DiffOperation::Update => {
            append_str(&mut v, "\n\nPossible causes:\n  - Invalid SQL syntax in ");
            append_str(&mut v, diff.database_name.as_str());
            append_str(&mut v, "/");
            append_str(&mut v, diff.table_name.as_str());
            append_str(&mut v, ".sql");
            append_str(
                &mut v,
                "\n  - Table is locked or being accessed\n  - Insufficient AWS permissions\n  - Network connectivity issues",
            );
        },
        _ => {
            append_str(
                &mut v,
                "\n\nPossible causes:\n  - Table is locked or being accessed\n  - Insufficient AWS permissions\n  - Network connectivity issues",
            );
        },
    }
    assert(v@ =~= failure_message_of(diff@, error@));
    string_of(&v)
}

/// The line that sums up what was applied.
pub open spec fn apply_summary_of(summary: DiffSummary) -> Seq<char> {
    "Apply complete! Resources: "@ + decimal_of(summary.to_add as nat) + " added, "@ + decimal_of(
        summary.to_change as nat,
    ) + " changed, "@ + decimal_of(summary.to_destroy as nat) + " destroyed."@
}

/// The line that sums up what was applied.
pub fn apply_summary(summary: &DiffSummary) -> (line: String)
    ensures
        line@ == apply_summary_of(*summary),
{
    let mut v = chars_of("Apply complete! Resources: ");
    append_decimal(&mut v, summary.to_add as u64);
    append_str(&mut v, " added, ");
    append_decimal(&mut v, summary.to_change as u64);
    append_str(&mut v, " changed, ");
    append_decimal(&mut v, summary.to_destroy as u64);
    append_str(&mut v, " destroyed.");
    string_of(&v)
}

} // verus!
