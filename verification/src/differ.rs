//! Comparison of local table definitions with the definitions that the
//! warehouse reports.

pub mod columns;
pub mod definitions;
pub mod normalize;
pub mod properties;
pub mod remote;

pub use crate::differ::columns::{
    detect_column_changes, extract_columns, parse_column_definition, split_column_definitions,
    ColumnMap,
};
pub use crate::differ::definitions::{Definition, DefinitionSet};
pub use crate::differ::normalize::normalize_sql;
pub use crate::differ::properties::{
    compare_properties, detect_property_changes, extract_location, extract_partitioned_by,
    extract_properties, extract_stored_as, TableProperties,
};

use crate::differ::columns::{
    column_changes_of, column_fragments_of, column_list_of, columns_of,
    lemma_columns_from_distinct, lemma_no_column_changes_to_self,
};
use crate::differ::definitions::{
    defines, has_key, keys_distinct, lemma_defines_iff_some, lemma_key_position, sql_of,
    DefinitionView,
};
use crate::differ::normalize::normalized_of;
use crate::differ::properties::{properties_of, property_changes_of};
use crate::line_diff::{diff_text_of, format_sql_diff, unified_hunks_of};
use crate::text::{
    append_str, chars_of, opt_text, qualified_name, qualified_name_of, split, split_of, string_of,
};
use crate::types::diff_result::{
    diff_views, ChangeDetails, ChangeDetailsView, ColumnChangeView, DiffOperation, DiffResult,
    PropertyChangeView, TableDiff, TableDiffView,
};
use crate::types::query_execution::{QueryResult, QueryRow};
use vstd::prelude::*;

verus! {

/// Why a comparison could not be made.
#[derive(Debug, Clone, PartialEq)]
pub enum DiffError {
    /// A table key that is not of the form `<database>.<table>`.
    InvalidTableKey(String),
    /// The tables of a database could not be listed.
    CatalogList { database: String, reason: String },
}

/// Mathematical content of a [`DiffError`].
pub ghost enum DiffErrorView {
    InvalidTableKey(Seq<char>),
    CatalogList { database: Seq<char>, reason: Seq<char> },
}

impl View for DiffError {
    type V = DiffErrorView;

    open spec fn view(&self) -> DiffErrorView {
        match self {
            DiffError::InvalidTableKey(key) => DiffErrorView::InvalidTableKey(key@),
            DiffError::CatalogList { database, reason } => DiffErrorView::CatalogList {
                database: database@,
                reason: reason@,
            },
        }
    }
}

impl DiffErrorView {
    /// The message that describes the error.
    pub open spec fn message(self) -> Seq<char> {
        match self {
            DiffErrorView::InvalidTableKey(key) => "Invalid table key format: "@ + key,
            DiffErrorView::CatalogList { database, reason } => "Failed to get tables from database "@
                + database + ": "@ + reason,
        }
    }
}

impl DiffError {
    /// The message that describes the error.
    pub fn to_string(&self) -> (s: String)
        ensures
            s@ == self@.message(),
    {
        match self {
            DiffError::InvalidTableKey(key) => {
                let mut v = chars_of("Invalid table key format: ");
                append_str(&mut v, key.as_str());
                string_of(&v)
            },
            DiffError::CatalogList { database, reason } => {
                let mut v = chars_of("Failed to get tables from database ");
                append_str(&mut v, database.as_str());
                append_str(&mut v, ": ");
                append_str(&mut v, reason.as_str());
                string_of(&v)
            },
        }
    }
}

/// Splits a table key `<database>.<table>` into its two names.
pub fn parse_table_key(key: &str) -> (r: Result<(String, String), DiffError>)
    ensures
        match r {
            Ok((database, table)) => split_of(key@, '.') == seq![database@, table@],
            Err(e) => split_of(key@, '.').len() != 2 && e@ == DiffErrorView::InvalidTableKey(key@),
        },
{
    let chars = chars_of(key);
    let parts = split(&chars, '.');
    if parts.len() != 2 {
        return Err(DiffError::InvalidTableKey(string_of(&chars)));
    }
    let database = string_of(&parts[0]);
    let table = string_of(&parts[1]);
    Ok((database, table))
}

/// The structural changes that lead from the remote definition to the
/// local one.
pub open spec fn change_details_of(
    remote_sql: Seq<char>,
    local_sql: Seq<char>,
) -> ChangeDetailsView {
    ChangeDetailsView {
        column_changes: column_changes_of(columns_of(remote_sql), columns_of(local_sql)),
        property_changes: property_changes_of(properties_of(remote_sql), properties_of(local_sql)),
    }
}

/// Finds the structural changes between two definitions: columns added,
/// removed or given another type, and location, format or partition columns
/// that differ.
pub fn detect_changes(remote_sql: &str, local_sql: &str) -> (details: ChangeDetails)
    ensures
        details@ == change_details_of(remote_sql@, local_sql@),
{
    let remote_columns = extract_columns(remote_sql);
    let local_columns = extract_columns(local_sql);
    let column_changes = detect_column_changes(&remote_columns, &local_columns);
    let property_changes = detect_property_changes(remote_sql, local_sql);
    ChangeDetails { column_changes, property_changes }
}

/// The decision that carries the operation for a table and nothing else.
pub open spec fn bare_diff_of(d: DefinitionView, operation: DiffOperation) -> TableDiffView {
    TableDiffView {
        database_name: d.database_name,
        table_name: d.table_name,
        operation,
        text_diff: None,
        change_details: None,
    }
}

/// The decision for a table that is defined on both sides: the canonical
/// forms of the two texts are compared. Where they differ the table is
/// updated, and the decision carries the unified diff and the structural
/// changes that lead from the remote text to the local one.
pub open spec fn compared_diff_of(local: DefinitionView, remote_sql: Seq<char>) -> TableDiffView {
    let remote_text = normalized_of(remote_sql);
    let local_text = normalized_of(local.sql);
    if remote_text != local_text {
        TableDiffView {
            database_name: local.database_name,
            table_name: local.table_name,
            operation: DiffOperation::Update,
            text_diff: Some(
                diff_text_of(
                    qualified_name_of(local.database_name, local.table_name),
                    unified_hunks_of(remote_text, local_text),
                ),
            ),
            change_details: Some(change_details_of(remote_text, local_text)),
        }
    } else {
        bare_diff_of(local, DiffOperation::NoChange)
    }
}

/// The tables to create: those of `local` that `remote` does not define, in
/// the order of `local`.
pub open spec fn create_diffs_of(
    local: Seq<DefinitionView>,
    remote: Seq<DefinitionView>,
) -> Seq<TableDiffView>
    decreases local.len(),
{
    if local.len() == 0 {
        Seq::<TableDiffView>::empty()
    } else {
        let init = create_diffs_of(local.drop_last(), remote);
        let d = local.last();
        if !defines(remote, d.database_name, d.table_name) {
            init.push(bare_diff_of(d, DiffOperation::Create))
        } else {
            init
        }
    }
}

/// The tables to delete: those of `remote` that `local` does not define,
/// in the order of `remote`.
pub open spec fn delete_diffs_of(
    local: Seq<DefinitionView>,
    remote: Seq<DefinitionView>,
) -> Seq<TableDiffView>
    decreases remote.len(),
{
    if remote.len() == 0 {
        Seq::<TableDiffView>::empty()
    } else {
        let init = delete_diffs_of(local, remote.drop_last());
        let d = remote.last();
        if !defines(local, d.database_name, d.table_name) {
            init.push(bare_diff_of(d, DiffOperation::Delete))
        } else {
            init
        }
    }
}

/// The tables defined on both sides, each updated or left unchanged, in the
/// order of `local`.
pub open spec fn compared_diffs_of(
    local: Seq<DefinitionView>,
    remote: Seq<DefinitionView>,
) -> Seq<TableDiffView>
    decreases local.len(),
{
    if local.len() == 0 {
        Seq::<TableDiffView>::empty()
    } else {
        let init = compared_diffs_of(local.drop_last(), remote);
        let d = local.last();
        match sql_of(remote, d.database_name, d.table_name) {
            Some(remote_sql) => init.push(compared_diff_of(d, remote_sql)),
            None => init,
        }
    }
}

/// The decisions for all tables: first the tables to create, then those to
/// delete, then those defined on both sides.
pub open spec fn table_diffs_of(
    local: Seq<DefinitionView>,
    remote: Seq<DefinitionView>,
) -> Seq<TableDiffView> {
    create_diffs_of(local, remote) + delete_diffs_of(local, remote) + compared_diffs_of(
        local,
        remote,
    )
}

/// The decision that carries the operation for a table and nothing else.
fn bare_diff(d: &Definition, operation: DiffOperation) -> (diff: TableDiff)
    ensures
        diff@ == bare_diff_of(d@, operation),
{
    TableDiff {
        database_name: d.database_name.clone(),
        table_name: d.table_name.clone(),
        operation,
        text_diff: None,
        change_details: None,
    }
}

/// The decision for a table that is defined on both sides.
fn compared_diff(local: &Definition, remote_sql: &String) -> (diff: TableDiff)
    ensures
        diff@ == compared_diff_of(local@, remote_sql@),
{
    let remote_text = normalize_sql(remote_sql.as_str());
    let local_text = normalize_sql(local.sql.as_str());
    if !(remote_text == local_text) {
        let name = qualified_name(local.database_name.as_str(), local.table_name.as_str());
        let text_diff = format_sql_diff(name.as_str(), remote_text.as_str(), local_text.as_str());
        let details = detect_changes(remote_text.as_str(), local_text.as_str());
        TableDiff {
            database_name: local.database_name.clone(),
            table_name: local.table_name.clone(),
            operation: DiffOperation::Update,
            text_diff: Some(text_diff),
            change_details: Some(details),
        }
    } else {
        bare_diff(local, DiffOperation::NoChange)
    }
}

/// Adds to `diffs` the tables of `from` that `other` does not define, with
/// the operation `operation`.
fn push_one_sided(
    diffs: &mut Vec<TableDiff>,
    from: &DefinitionSet,
    other: &DefinitionSet,
    operation: DiffOperation,
)
    requires
        operation == DiffOperation::Create || operation == DiffOperation::Delete,
    ensures
        diff_views(final(diffs)@) == diff_views(old(diffs)@) + if operation
            == DiffOperation::Create {
            create_diffs_of(from@, other@)
        } else {
            delete_diffs_of(other@, from@)
        },
{
    let ghost start = diff_views(diffs@);
    let ghost all = from@;
    let mut i: usize = 0;
    while i < from.len()
        invariant
            i <= from@.len(),
            all == from@,
            operation == DiffOperation::Create || operation == DiffOperation::Delete,
            diff_views(diffs@) == start + if operation == DiffOperation::Create {
                create_diffs_of(all.take(i as int), other@)
            } else {
                delete_diffs_of(other@, all.take(i as int))
            },
        decreases from@.len() - i,
    {
        proof {
            assert(all.take(i + 1).drop_last() =~= all.take(i as int));
        }
        let ghost so_far = if operation == DiffOperation::Create {
            create_diffs_of(all.take(i as int), other@)
        } else {
            delete_diffs_of(other@, all.take(i as int))
        };
        let d = from.entry(i);
        if other.find(&d.database_name, &d.table_name) >= other.len() {
            let diff = bare_diff(d, operation);
            assert((start + so_far).push(diff@) =~= start + so_far.push(diff@));
            diffs.push(diff);
        }
        i = i + 1;
    }
    assert(all.take(all.len() as int) =~= all);
}

/// Decides for every table what has to happen to it: a table defined
/// locally only is created, one defined remotely only is deleted, and one
/// defined on both sides is updated where the canonical forms of the two
/// texts differ, and left unchanged where they do not.
pub fn compute_table_diffs(local: &DefinitionSet, remote: &DefinitionSet) -> (diffs: Vec<TableDiff>)
    ensures
        diff_views(diffs@) == table_diffs_of(local@, remote@),
{
    let mut diffs: Vec<TableDiff> = Vec::new();
    push_one_sided(&mut diffs, local, remote, DiffOperation::Create);
    push_one_sided(&mut diffs, remote, local, DiffOperation::Delete);
    let ghost start = diff_views(diffs@);
    let ghost all = local@;
    let mut i: usize = 0;
    while i < local.len()
        invariant
            i <= local@.len(),
            all == local@,
            diff_views(diffs@) == start + compared_diffs_of(all.take(i as int), remote@),
        decreases local@.len() - i,
    {
        proof {
            assert(all.take(i + 1).drop_last() =~= all.take(i as int));
        }
        let ghost so_far = compared_diffs_of(all.take(i as int), remote@);
        let d = local.entry(i);
        let at = remote.find(&d.database_name, &d.table_name);
        if at < remote.len() {
            let diff = compared_diff(d, &remote.entry(at).sql);
            assert((start + so_far).push(diff@) =~= start + so_far.push(diff@));
            diffs.push(diff);
        }
        i = i + 1;
    }
    assert(all.take(all.len() as int) =~= all);
    diffs
}

/// Compares the local definitions with the remote ones and gathers the
/// decisions for all tables, with the summary that counts them. Every
/// table that is defined on either side gets exactly one decision, whose
/// operation fits where the table is defined.
pub fn calculate_diff(local: &DefinitionSet, remote: &DefinitionSet) -> (result: DiffResult)
    ensures
        result@ == table_diffs_of(local@, remote@),
        forall|database: Seq<char>, table: Seq<char>|
            defines(local@, database, table) || defines(remote@, database, table)
                ==> #[trigger] decision_count(result@, database, table) == 1,
        forall|i: int|
            0 <= i < result@.len() ==> fits_presence(#[trigger] result@[i], local@, remote@),
{
    local.holds_each_table_once();
    remote.holds_each_table_once();
    proof {
        lemma_decisions_fit_presence(local@, remote@);
        assert forall|database: Seq<char>, table: Seq<char>|
            defines(local@, database, table) || defines(
                remote@,
                database,
                table,
            ) implies #[trigger] decision_count(table_diffs_of(local@, remote@), database, table)
            == 1 by {
            lemma_one_decision_per_table(local@, remote@, database, table);
        }
    }
    DiffResult::from_table_diffs(compute_table_diffs(local, remote))
}

/// The definition text that the answer to `SHOW CREATE TABLE` carries: the
/// first cell of the second row, the first row being the header.
pub open spec fn ddl_of_rows(rows: Seq<QueryRow>) -> Option<Seq<char>> {
    if rows.len() >= 2 && rows[1].columns@.len() > 0 {
        Some(rows[1].columns@[0]@)
    } else {
        None
    }
}

/// Takes the definition text out of the answer to `SHOW CREATE TABLE`.
pub fn extract_ddl_from_query_result(result: &QueryResult) -> (ddl: Option<String>)
    ensures
        opt_text(ddl) == ddl_of_rows(result.rows@),
{
    if result.rows.len() >= 2 {
        let data_row = &result.rows[1];
        if data_row.columns.len() > 0 {
            return Some(data_row.columns[0].clone());
        }
    }
    None
}

/// Whether `d` is the decision for the table `table` of `database`.
pub open spec fn decides(d: TableDiffView, database: Seq<char>, table: Seq<char>) -> bool {
    d.database_name == database && d.table_name == table
}

/// Number of decisions in `diffs` for the table `table` of `database`.
pub open spec fn decision_count(
    diffs: Seq<TableDiffView>,
    database: Seq<char>,
    table: Seq<char>,
) -> nat
    decreases diffs.len(),
{
    if diffs.len() == 0 {
        0
    } else {
        decision_count(diffs.drop_last(), database, table) + if decides(
            diffs.last(),
            database,
            table,
        ) {
            1nat
        } else {
            0nat
        }
    }
}

/// The decisions of two lists are counted one list after the other.
proof fn lemma_count_concat(
    a: Seq<TableDiffView>,
    b: Seq<TableDiffView>,
    database: Seq<char>,
    table: Seq<char>,
)
    ensures
        decision_count(a + b, database, table) == decision_count(a, database, table)
            + decision_count(b, database, table),
    decreases b.len(),
{
    if b.len() > 0 {
        lemma_count_concat(a, b.drop_last(), database, table);
        assert((a + b).drop_last() =~= a + b.drop_last());
    }
}

/// A table is defined after one more definition where it was defined
/// before or the new definition is its own.
proof fn lemma_defines_push(
    definitions: Seq<DefinitionView>,
    d: DefinitionView,
    database: Seq<char>,
    table: Seq<char>,
)
    ensures
        defines(definitions.push(d), database, table) == (defines(definitions, database, table)
            || has_key(d, database, table)),
{
    let more = definitions.push(d);
    lemma_defines_iff_some(more, database, table);
    lemma_defines_iff_some(definitions, database, table);
    if defines(definitions, database, table) {
        let i = choose|i: int|
            0 <= i < definitions.len() && has_key(#[trigger] definitions[i], database, table);
        assert(has_key(more[i], database, table));
    }
    if has_key(d, database, table) {
        assert(has_key(more[definitions.len() as int], database, table));
    }
}

/// Where no table has two definitions, the last definition is the only one
/// of its table.
proof fn lemma_distinct_last(definitions: Seq<DefinitionView>)
    requires
        keys_distinct(definitions),
        definitions.len() > 0,
    ensures
        keys_distinct(definitions.drop_last()),
        !defines(
            definitions.drop_last(),
            definitions.last().database_name,
            definitions.last().table_name,
        ),
{
    let init = definitions.drop_last();
    let last = definitions.last();
    lemma_defines_iff_some(init, last.database_name, last.table_name);
}

/// A table has one decision among the tables to create where it is defined
/// locally and not remotely, and none otherwise.
proof fn lemma_create_count(
    local: Seq<DefinitionView>,
    remote: Seq<DefinitionView>,
    database: Seq<char>,
    table: Seq<char>,
)
    requires
        keys_distinct(local),
    ensures
        decision_count(create_diffs_of(local, remote), database, table) == if defines(
            local,
            database,
            table,
        ) && !defines(remote, database, table) {
            1nat
        } else {
            0nat
        },
    decreases local.len(),
{
    if local.len() == 0 {
        lemma_key_position(local, database, table);
    } else {
        let init = local.drop_last();
        let d = local.last();
        lemma_distinct_last(local);
        lemma_create_count(init, remote, database, table);
        lemma_defines_push(init, d, database, table);
        assert(init.push(d) =~= local);
        let before = create_diffs_of(init, remote);
        if !defines(remote, d.database_name, d.table_name) {
            assert(create_diffs_of(local, remote).drop_last() =~= before);
        }
    }
}

/// A table has one decision among the tables to delete where it is defined
/// remotely and not locally, and none otherwise.
proof fn lemma_delete_count(
    local: Seq<DefinitionView>,
    remote: Seq<DefinitionView>,
    database: Seq<char>,
    table: Seq<char>,
)
    requires
        keys_distinct(remote),
    ensures
        decision_count(delete_diffs_of(local, remote), database, table) == if defines(
            remote,
            database,
            table,
        ) && !defines(local, database, table) {
            1nat
        } else {
            0nat
        },
    decreases remote.len(),
{
    if remote.len() == 0 {
        lemma_key_position(remote, database, table);
    } else {
        let init = remote.drop_last();
        let d = remote.last();
        lemma_distinct_last(remote);
        lemma_delete_count(local, init, database, table);
        lemma_defines_push(init, d, database, table);
        assert(init.push(d) =~= remote);
        let before = delete_diffs_of(local, init);
        if !defines(local, d.database_name, d.table_name) {
            assert(delete_diffs_of(local, remote).drop_last() =~= before);
        }
    }
}

/// A table has one decision among the compared tables where it is defined
/// on both sides, and none otherwise.
proof fn lemma_compared_count(
    local: Seq<DefinitionView>,
    remote: Seq<DefinitionView>,
    database: Seq<char>,
    table: Seq<char>,
)
    requires
        keys_distinct(local),
    ensures
        decision_count(compared_diffs_of(local, remote), database, table) == if defines(
            local,
            database,
            table,
        ) && defines(remote, database, table) {
            1nat
        } else {
            0nat
        },
    decreases local.len(),
{
    if local.len() == 0 {
        lemma_key_position(local, database, table);
    } else {
        let init = local.drop_last();
        let d = local.last();
        lemma_distinct_last(local);
        lemma_compared_count(init, remote, database, table);
        lemma_defines_push(init, d, database, table);
        assert(init.push(d) =~= local);
        let before = compared_diffs_of(init, remote);
        if defines(remote, d.database_name, d.table_name) {
            assert(compared_diffs_of(local, remote).drop_last() =~= before);
        }
    }
}

/// Every table that is defined locally or remotely gets exactly one
/// decision, and no other table gets any.
pub proof fn lemma_one_decision_per_table(
    local: Seq<DefinitionView>,
    remote: Seq<DefinitionView>,
    database: Seq<char>,
    table: Seq<char>,
)
    requires
        keys_distinct(local),
        keys_distinct(remote),
    ensures
        decision_count(table_diffs_of(local, remote), database, table) == if defines(
            local,
            database,
            table,
        ) || defines(remote, database, table) {
            1nat
        } else {
            0nat
        },
{
    let creates = create_diffs_of(local, remote);
    let deletes = delete_diffs_of(local, remote);
    let compared = compared_diffs_of(local, remote);
    lemma_create_count(local, remote, database, table);
    lemma_delete_count(local, remote, database, table);
    lemma_compared_count(local, remote, database, table);
    lemma_count_concat(creates, deletes, database, table);
    lemma_count_concat(creates + deletes, compared, database, table);
}

/// Whether the operation of the decision `d` fits where its table is
/// defined: a table is created only where it is defined locally and not
/// remotely, deleted only where it is defined remotely and not locally, and
/// updated or left unchanged only where it is defined on both sides.
pub open spec fn fits_presence(
    d: TableDiffView,
    local: Seq<DefinitionView>,
    remote: Seq<DefinitionView>,
) -> bool {
    let here = defines(local, d.database_name, d.table_name);
    let there = defines(remote, d.database_name, d.table_name);
    match d.operation {
        DiffOperation::Create => here && !there,
        DiffOperation::Delete => !here && there,
        DiffOperation::Update => here && there,
        DiffOperation::NoChange => here && there,
    }
}

/// Every decision among the tables to create fits where its table is
/// defined.
proof fn lemma_creates_fit(
    local: Seq<DefinitionView>,
    remote: Seq<DefinitionView>,
    from: Seq<DefinitionView>,
)
    requires
        forall|i: int|
            0 <= i < from.len() ==> defines(
                local,
                (#[trigger] from[i]).database_name,
                from[i].table_name,
            ),
    ensures
        forall|i: int|
            0 <= i < create_diffs_of(from, remote).len() ==> fits_presence(
                #[trigger] create_diffs_of(from, remote)[i],
                local,
                remote,
            ),
    decreases from.len(),
{
    if from.len() > 0 {
        let init = from.drop_last();
        lemma_creates_fit(local, remote, init);
        // The decisions are those for all but the last definition, with
        // at most one more for the last.
        let all = create_diffs_of(from, remote);
        let before = create_diffs_of(init, remote);
        assert(all == before || all.drop_last() == before);
    }
}

/// Every decision among the tables to delete fits where its table is
/// defined.
proof fn lemma_deletes_fit(
    local: Seq<DefinitionView>,
    remote: Seq<DefinitionView>,
    from: Seq<DefinitionView>,
)
    requires
        forall|i: int|
            0 <= i < from.len() ==> defines(
                remote,
                (#[trigger] from[i]).database_name,
                from[i].table_name,
            ),
    ensures
        forall|i: int|
            0 <= i < delete_diffs_of(local, from).len() ==> fits_presence(
                #[trigger] delete_diffs_of(local, from)[i],
                local,
                remote,
            ),
    decreases from.len(),
{
    if from.len() > 0 {
        let init = from.drop_last();
        lemma_deletes_fit(local, remote, init);
        // The decisions are those for all but the last definition, with
        // at most one more for the last.
        let all = delete_diffs_of(local, from);
        let before = delete_diffs_of(local, init);
        assert(all == before || all.drop_last() == before);
    }
}

/// Every decision among the compared tables fits where its table is
/// defined.
proof fn lemma_compared_fit(
    local: Seq<DefinitionView>,
    remote: Seq<DefinitionView>,
    from: Seq<DefinitionView>,
)
    requires
        forall|i: int|
            0 <= i < from.len() ==> defines(
                local,
                (#[trigger] from[i]).database_name,
                from[i].table_name,
            ),
    ensures
        forall|i: int|
            0 <= i < compared_diffs_of(from, remote).len() ==> fits_presence(
                #[trigger] compared_diffs_of(from, remote)[i],
                local,
                remote,
            ),
    decreases from.len(),
{
    if from.len() > 0 {
        let init = from.drop_last();
        lemma_compared_fit(local, remote, init);
        // The decisions are those for all but the last definition, with
        // at most one more for the last.
        let all = compared_diffs_of(from, remote);
        let before = compared_diffs_of(init, remote);
        assert(all == before || all.drop_last() == before);
    }
}

/// Every definition of a list is the definition of a table that the list
/// defines.
proof fn lemma_defines_own(definitions: Seq<DefinitionView>)
    ensures
        forall|i: int|
            0 <= i < definitions.len() ==> defines(
                definitions,
                (#[trigger] definitions[i]).database_name,
                definitions[i].table_name,
            ),
{
    assert forall|i: int| 0 <= i < definitions.len() implies defines(
        definitions,
        (#[trigger] definitions[i]).database_name,
        definitions[i].table_name,
    ) by {
        lemma_defines_iff_some(definitions, definitions[i].database_name, definitions[i].table_name);
    }
}

/// The operation of every decision fits where its table is defined.
pub proof fn lemma_decisions_fit_presence(local: Seq<DefinitionView>, remote: Seq<DefinitionView>)
    ensures
        forall|i: int|
            0 <= i < table_diffs_of(local, remote).len() ==> fits_presence(
                #[trigger] table_diffs_of(local, remote)[i],
                local,
                remote,
            ),
{
    lemma_defines_own(local);
    lemma_defines_own(remote);
    lemma_creates_fit(local, remote, local);
    lemma_deletes_fit(local, remote, remote);
    lemma_compared_fit(local, remote, local);
}

/// No table is both created and deleted, and none both created and
/// updated: two decisions for one table never carry such operations.
pub proof fn lemma_buckets_disjoint(
    local: Seq<DefinitionView>,
    remote: Seq<DefinitionView>,
    i: int,
    j: int,
)
    requires
        0 <= i < table_diffs_of(local, remote).len(),
        0 <= j < table_diffs_of(local, remote).len(),
        decides(
            table_diffs_of(local, remote)[i],
            table_diffs_of(local, remote)[j].database_name,
            table_diffs_of(local, remote)[j].table_name,
        ),
    ensures
        !(table_diffs_of(local, remote)[i].operation == DiffOperation::Create && table_diffs_of(
            local,
            remote,
        )[j].operation == DiffOperation::Delete),
        !(table_diffs_of(local, remote)[i].operation == DiffOperation::Create && table_diffs_of(
            local,
            remote,
        )[j].operation == DiffOperation::Update),
{
    lemma_decisions_fit_presence(local, remote);
}

/// A definition does not change against itself: comparing a text with
/// itself finds no column and no property that differs.
pub proof fn lemma_no_changes_to_self(sql: Seq<char>)
    ensures
        change_details_of(sql, sql) == (ChangeDetailsView {
            column_changes: Seq::<ColumnChangeView>::empty(),
            property_changes: Seq::<PropertyChangeView>::empty(),
        }),
{
    lemma_columns_from_distinct(column_fragments_of(column_list_of(sql)));
    lemma_no_column_changes_to_self(columns_of(sql));
    assert(property_changes_of(properties_of(sql), properties_of(sql)) =~= Seq::<
        PropertyChangeView,
    >::empty());
}

} // verus!
