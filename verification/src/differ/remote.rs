//! What to ask the warehouse, and what to make of its answers: the tables
//! whose definitions are fetched, the queries that fetch them, and the
//! definitions that the answers carry.

use crate::differ::definitions::{
    defined_of, keys_distinct, lemma_defined_sql, sql_of, DefinitionSet, DefinitionView,
};
use crate::differ::{ddl_of_rows, extract_ddl_from_query_result, DiffError, DiffErrorView};
use crate::file_utils::SqlFile;
use crate::target_filter::TargetFilter;
use crate::text::{
    append_str, chars_of, lemma_texts_of_push, pair_views, qualified_name_of, string_of, texts_of,
};
use crate::aws::athena::{QueryError, QueryErrorView};
use crate::types::query_execution::QueryResult;
use vstd::prelude::*;

verus! {

/// The tables of one database, as the catalog lists them.
#[derive(Debug, Clone, PartialEq)]
pub struct CatalogDatabase {
    pub name: String,
    pub tables: Vec<String>,
}

/// Whether the filter, if there is one, selects the table.
pub open spec fn passes(
    filter: Option<TargetFilter>,
    database: Seq<char>,
    table: Seq<char>,
) -> bool {
    match filter {
        Some(f) => f.accepts(database, table),
        None => true,
    }
}

/// The tables of `tables` that pass the filter, each with the name of the
/// database, in the order of `tables`.
pub open spec fn selected_in_database(
    database: Seq<char>,
    tables: Seq<Seq<char>>,
    filter: Option<TargetFilter>,
) -> Seq<(Seq<char>, Seq<char>)>
    decreases tables.len(),
{
    if tables.len() == 0 {
        Seq::<(Seq<char>, Seq<char>)>::empty()
    } else {
        let init = selected_in_database(database, tables.drop_last(), filter);
        if passes(filter, database, tables.last()) {
            init.push((database, tables.last()))
        } else {
            init
        }
    }
}

/// The tables of the catalog that pass the filter, database by database.
pub open spec fn selected_tables_of(
    catalog: Seq<CatalogDatabase>,
    filter: Option<TargetFilter>,
) -> Seq<(Seq<char>, Seq<char>)>
    decreases catalog.len(),
{
    if catalog.len() == 0 {
        Seq::<(Seq<char>, Seq<char>)>::empty()
    } else {
        selected_tables_of(catalog.drop_last(), filter) + selected_in_database(
            catalog.last().name@,
            texts_of(catalog.last().tables@),
            filter,
        )
    }
}

/// Whether the filter, if there is one, selects the table.
fn filter_passes(filter: &Option<TargetFilter>, database: &str, table: &str) -> (b: bool)
    ensures
        b == passes(*filter, database@, table@),
{
    match filter {
        Some(f) => f.matches(database, table),
        None => true,
    }
}

/// Chooses the tables whose remote definitions are to be fetched: those of
/// the catalog that the filter selects, or all where there is no filter.
pub fn select_tables(catalog: &Vec<CatalogDatabase>, filter: &Option<TargetFilter>) -> (tables: Vec<
    (String, String),
>)
    ensures
        pair_views(tables@) == selected_tables_of(catalog@, *filter),
{
    let mut tables: Vec<(String, String)> = Vec::new();
    let mut i: usize = 0;
    while i < catalog.len()
        invariant
            i <= catalog.len(),
            pair_views(tables@) == selected_tables_of(catalog@.take(i as int), *filter),
        decreases catalog.len() - i,
    {
        let database = &catalog[i];
        let ghost before = pair_views(tables@);
        let ghost names = texts_of(database.tables@);
        proof {
            assert(catalog@.take(i + 1).drop_last() =~= catalog@.take(i as int));
        }
        let mut j: usize = 0;
        while j < database.tables.len()
            invariant
                j <= database.tables.len(),
                names == texts_of(database.tables@),
                pair_views(tables@) == before + selected_in_database(
                    database.name@,
                    names.take(j as int),
                    *filter,
                ),
            decreases database.tables.len() - j,
        {
            proof {
                assert(names.take(j + 1).drop_last() =~= names.take(j as int));
            }
            let ghost so_far = selected_in_database(database.name@, names.take(j as int), *filter);
            let table = &database.tables[j];
            if filter_passes(filter, database.name.as_str(), table.as_str()) {
                let entry = (database.name.clone(), table.clone());
                assert((before + so_far).push((entry.0@, entry.1@)) =~= before + so_far.push(
                    (entry.0@, entry.1@),
                ));
                tables.push(entry);
            }
            j = j + 1;
        }
        assert(names.take(database.tables.len() as int) =~= names);
        i = i + 1;
    }
    assert(catalog@.take(catalog.len() as int) =~= catalog@);
    tables
}

/// The statement that asks the warehouse for the definition of a table.
pub open spec fn show_create_table_of(database: Seq<char>, table: Seq<char>) -> Seq<char> {
    "SHOW CREATE TABLE "@ + qualified_name_of(database, table)
}

/// The statements that ask for the definitions of `tables`, in their order.
pub open spec fn show_create_tables_of(tables: Seq<(Seq<char>, Seq<char>)>) -> Seq<Seq<char>> {
    tables.map_values(|t: (Seq<char>, Seq<char>)| show_create_table_of(t.0, t.1))
}

/// The statement that asks the warehouse for the definition of a table.
pub fn show_create_table_query(database: &str, table: &str) -> (query: String)
    ensures
        query@ == show_create_table_of(database@, table@),
{
    let mut v = chars_of("SHOW CREATE TABLE ");
    append_str(&mut v, database);
    v.push('.');
    append_str(&mut v, table);
    string_of(&v)
}

/// The statements that ask for the definitions of `tables`: one for every
/// table, in the order of the tables.
pub fn show_create_table_queries(tables: &Vec<(String, String)>) -> (queries: Vec<String>)
    ensures
        texts_of(queries@) == show_create_tables_of(pair_views(tables@)),
{
    let mut queries: Vec<String> = Vec::new();
    let ghost goal = show_create_tables_of(pair_views(tables@));
    let mut i: usize = 0;
    while i < tables.len()
        invariant
            i <= tables.len(),
            goal == show_create_tables_of(pair_views(tables@)),
            texts_of(queries@) == goal.take(i as int),
        decreases tables.len() - i,
    {
        let query = show_create_table_query(tables[i].0.as_str(), tables[i].1.as_str());
        proof {
            lemma_texts_of_push(queries@, query);
        }
        queries.push(query);
        i = i + 1;
    }
    queries
}

/// Why a table is left out of the remote definitions.
#[derive(Debug, Clone, PartialEq)]
pub enum SkipReason {
    /// The answer of the warehouse carried no definition.
    NoDefinition,
    /// The query for the definition failed.
    FetchFailed(QueryError),
}

/// A table that is left out of the remote definitions.
#[derive(Debug, Clone, PartialEq)]
pub struct SkippedTable {
    pub database_name: String,
    pub table_name: String,
    pub reason: SkipReason,
}

/// Mathematical content of a [`SkipReason`].
pub ghost enum SkipReasonView {
    NoDefinition,
    FetchFailed(QueryErrorView),
}

/// Mathematical content of a [`SkippedTable`].
pub ghost struct SkippedTableView {
    pub database_name: Seq<char>,
    pub table_name: Seq<char>,
    pub reason: SkipReasonView,
}

impl View for SkipReason {
    type V = SkipReasonView;

    open spec fn view(&self) -> SkipReasonView {
        match self {
            SkipReason::NoDefinition => SkipReasonView::NoDefinition,
            SkipReason::FetchFailed(e) => SkipReasonView::FetchFailed(e@),
        }
    }
}

impl View for SkippedTable {
    type V = SkippedTableView;

    open spec fn view(&self) -> SkippedTableView {
        SkippedTableView {
            database_name: self.database_name@,
            table_name: self.table_name@,
            reason: self.reason@,
        }
    }
}

impl SkippedTableView {
    /// The warning under which the table is reported.
    pub open spec fn warning(self) -> Seq<char> {
        let name = qualified_name_of(self.database_name, self.table_name);
        match self.reason {
            SkipReasonView::NoDefinition => "Could not extract DDL for "@ + name,
            SkipReasonView::FetchFailed(e) => "Could not fetch DDL for "@ + name + ": "@
                + e.message(),
        }
    }
}

impl SkippedTable {
    /// The warning under which the table is reported.
    pub fn warning(&self) -> (text: String)
        ensures
            text@ == self@.warning(),
    {
        let mut v = match &self.reason {
            SkipReason::NoDefinition => chars_of("Could not extract DDL for "),
            SkipReason::FetchFailed(_) => chars_of("Could not fetch DDL for "),
        };
        append_str(&mut v, self.database_name.as_str());
        v.push('.');
        append_str(&mut v, self.table_name.as_str());
        match &self.reason {
            SkipReason::NoDefinition => {},
            SkipReason::FetchFailed(e) => {
                append_str(&mut v, ": ");
                append_str(&mut v, e.to_string().as_str());
            },
        }
        assert(v@ =~= self@.warning());
        string_of(&v)
    }
}

/// The views of a sequence of skipped tables.
pub open spec fn skipped_views(skipped: Seq<SkippedTable>) -> Seq<SkippedTableView> {
    skipped.map_values(|t: SkippedTable| t@)
}

/// The remote definitions that a run could fetch, and the tables of which
/// it could not.
#[derive(Debug, PartialEq)]
pub struct RemoteDefinitions {
    pub definitions: DefinitionSet,
    /// The tables whose definition could not be fetched. They are left out
    /// of `definitions`, and the comparison goes on without them: such a
    /// table counts as not defined remotely.
    pub skipped: Vec<SkippedTable>,
}

/// What the outcome of the query for a definition gives: the definition, or
/// the reason for which there is none.
pub open spec fn fetched_of(outcome: Result<QueryResult, QueryError>) -> Result<
    Seq<char>,
    SkipReasonView,
> {
    match outcome {
        Ok(result) => match ddl_of_rows(result.rows@) {
            Some(ddl) => Ok(ddl),
            None => Err(SkipReasonView::NoDefinition),
        },
        Err(e) => Err(SkipReasonView::FetchFailed(e@)),
    }
}

/// The definitions that the first `count` outcomes give for the first
/// `count` tables.
pub open spec fn remote_definitions_of(
    tables: Seq<(Seq<char>, Seq<char>)>,
    outcomes: Seq<Result<QueryResult, QueryError>>,
    count: int,
) -> Seq<DefinitionView>
    decreases count,
{
    if count <= 0 {
        Seq::<DefinitionView>::empty()
    } else {
        let init = remote_definitions_of(tables, outcomes, count - 1);
        match fetched_of(outcomes[count - 1]) {
            Ok(ddl) => defined_of(init, tables[count - 1].0, tables[count - 1].1, ddl),
            Err(_) => init,
        }
    }
}

/// The tables among the first `count` whose outcome gives no definition,
/// each with the reason.
pub open spec fn skipped_tables_of(
    tables: Seq<(Seq<char>, Seq<char>)>,
    outcomes: Seq<Result<QueryResult, QueryError>>,
    count: int,
) -> Seq<SkippedTableView>
    decreases count,
{
    if count <= 0 {
        Seq::<SkippedTableView>::empty()
    } else {
        let init = skipped_tables_of(tables, outcomes, count - 1);
        match fetched_of(outcomes[count - 1]) {
            Ok(_) => init,
            Err(reason) => init.push(
                SkippedTableView {
                    database_name: tables[count - 1].0,
                    table_name: tables[count - 1].1,
                    reason,
                },
            ),
        }
    }
}

/// A table that the first `count` outcomes define is one of the first
/// `count` tables, and the outcome of one of its queries carries a
/// definition.
proof fn lemma_defined_was_fetched(
    tables: Seq<(Seq<char>, Seq<char>)>,
    outcomes: Seq<Result<QueryResult, QueryError>>,
    count: int,
    database: Seq<char>,
    table: Seq<char>,
)
    requires
        0 <= count <= tables.len(),
        count <= outcomes.len(),
        sql_of(remote_definitions_of(tables, outcomes, count), database, table) is Some,
    ensures
        exists|k: int|
            0 <= k < count && #[trigger] tables[k] == (database, table) && fetched_of(
                outcomes[k],
            ) is Ok,
    decreases count,
{
    if count > 0 {
        let init = remote_definitions_of(tables, outcomes, count - 1);
        let last = tables[count - 1];
        match fetched_of(outcomes[count - 1]) {
            Ok(ddl) => {
                lemma_defined_sql(init, last.0, last.1, ddl, database, table);
                if last.0 == database && last.1 == table {
                    assert(tables[count - 1] == (database, table));
                } else {
                    lemma_defined_was_fetched(tables, outcomes, count - 1, database, table);
                }
            },
            Err(_) => {
                lemma_defined_was_fetched(tables, outcomes, count - 1, database, table);
            },
        }
    }
}

/// Every outcome decides on its own table and on no other: where no table
/// stands twice among the first `count`, each of them is defined exactly
/// where its own outcome carries a definition, and then with that text. So
/// a fetch that failed costs the one table that it was made for.
pub proof fn lemma_outcome_decides_its_table(
    tables: Seq<(Seq<char>, Seq<char>)>,
    outcomes: Seq<Result<QueryResult, QueryError>>,
    count: int,
    i: int,
)
    requires
        0 <= i < count <= tables.len(),
        count <= outcomes.len(),
        forall|a: int, b: int| 0 <= a < b < count ==> tables[a] != tables[b],
    ensures
        sql_of(remote_definitions_of(tables, outcomes, count), tables[i].0, tables[i].1)
            == match fetched_of(outcomes[i]) {
            Ok(ddl) => Some(ddl),
            Err(_) => None::<Seq<char>>,
        },
    decreases count,
{
    let init = remote_definitions_of(tables, outcomes, count - 1);
    let last = tables[count - 1];
    let own = tables[i];
    if i < count - 1 {
        lemma_outcome_decides_its_table(tables, outcomes, count - 1, i);
        assert(tables[i] != tables[count - 1]);
        match fetched_of(outcomes[count - 1]) {
            Ok(ddl) => {
                lemma_defined_sql(init, last.0, last.1, ddl, own.0, own.1);
            },
            Err(_) => {},
        }
    } else {
        match fetched_of(outcomes[count - 1]) {
            Ok(ddl) => {
                lemma_defined_sql(init, last.0, last.1, ddl, own.0, own.1);
            },
            Err(_) => {
                if sql_of(init, own.0, own.1) is Some {
                    lemma_defined_was_fetched(tables, outcomes, count - 1, own.0, own.1);
                    let k = choose|k: int|
                        0 <= k < count - 1 && #[trigger] tables[k] == (own.0, own.1) && fetched_of(
                            outcomes[k],
                        ) is Ok;
                    assert(tables[k] != tables[count - 1]);
                }
            },
        }
    }
}

/// The smaller of two lengths.
pub open spec fn shorter_of(a: int, b: int) -> int {
    if a <= b {
        a
    } else {
        b
    }
}

/// Reads the remote definitions off the outcomes of the statements of
/// `show_create_table_queries`: the outcome at a position belongs to the
/// table at that position. A table whose query failed, or whose answer
/// carries no definition, is left out and listed as skipped; the others are
/// not held up by it. Outcomes without a table, and tables without an
/// outcome, are passed over.
pub fn collect_remote_definitions(
    tables: &Vec<(String, String)>,
    outcomes: &Vec<Result<QueryResult, QueryError>>,
) -> (r: RemoteDefinitions)
    ensures
        r.definitions@ == remote_definitions_of(
            pair_views(tables@),
            outcomes@,
            shorter_of(tables@.len() as int, outcomes@.len() as int),
        ),
        skipped_views(r.skipped@) == skipped_tables_of(
            pair_views(tables@),
            outcomes@,
            shorter_of(tables@.len() as int, outcomes@.len() as int),
        ),
        keys_distinct(r.definitions@),
{
    let mut definitions = DefinitionSet::new();
    let mut skipped: Vec<SkippedTable> = Vec::new();
    let count = if tables.len() <= outcomes.len() {
        tables.len()
    } else {
        outcomes.len()
    };
    let ghost names = pair_views(tables@);
    let mut i: usize = 0;
    assert(skipped_views(skipped@) =~= Seq::<SkippedTableView>::empty());
    while i < count
        invariant
            i <= count,
            count <= tables.len(),
            count <= outcomes.len(),
            names == pair_views(tables@),
            definitions@ == remote_definitions_of(names, outcomes@, i as int),
            skipped_views(skipped@) == skipped_tables_of(names, outcomes@, i as int),
        decreases count - i,
    {
        let database = &tables[i].0;
        let table = &tables[i].1;
        assert(names[i as int] == (database@, table@));
        let fetched = match &outcomes[i] {
            Ok(result) => match extract_ddl_from_query_result(result) {
                Some(ddl) => Ok(ddl),
                None => Err(SkipReason::NoDefinition),
            },
            Err(e) => Err(SkipReason::FetchFailed(e.clone())),
        };
        match fetched {
            Ok(ddl) => {
                definitions.insert(database.clone(), table.clone(), ddl);
            },
            Err(reason) => {
                let entry = SkippedTable {
                    database_name: database.clone(),
                    table_name: table.clone(),
                    reason,
                };
                assert(skipped_views(skipped@.push(entry)) =~= skipped_views(skipped@).push(
                    entry@,
                ));
                skipped.push(entry);
            },
        }
        i = i + 1;
    }
    definitions.holds_each_table_once();
    RemoteDefinitions { definitions, skipped }
}

/// The definitions that the first `count` files give for the tables that
/// pass the filter.
pub open spec fn local_definitions_of(
    files: Seq<SqlFile>,
    filter: Option<TargetFilter>,
    count: int,
) -> Seq<DefinitionView>
    decreases count,
{
    if count <= 0 {
        Seq::<DefinitionView>::empty()
    } else {
        let init = local_definitions_of(files, filter, count - 1);
        let file = files[count - 1];
        if passes(filter, file.database_name@, file.table_name@) {
            defined_of(init, file.database_name@, file.table_name@, file.content@)
        } else {
            init
        }
    }
}

/// The local definitions to compare: the texts of the definition files of
/// the tables that the filter selects, or of all where there is no filter.
pub fn local_definitions(files: &Vec<SqlFile>, filter: &Option<TargetFilter>) -> (definitions:
    DefinitionSet)
    ensures
        definitions@ == local_definitions_of(files@, *filter, files@.len() as int),
        keys_distinct(definitions@),
{
    let mut definitions = DefinitionSet::new();
    let mut i: usize = 0;
    while i < files.len()
        invariant
            i <= files.len(),
            definitions@ == local_definitions_of(files@, *filter, i as int),
        decreases files.len() - i,
    {
        let file = &files[i];
        if filter_passes(filter, file.database_name.as_str(), file.table_name.as_str()) {
            definitions.insert(
                file.database_name.clone(),
                file.table_name.clone(),
                file.content.clone(),
            );
        }
        i = i + 1;
    }
    definitions.holds_each_table_once();
    definitions
}

/// The answer of the catalog to the question for the tables of a database.
#[derive(Debug, Clone, PartialEq)]
pub enum Listing {
    /// The names of the tables.
    Tables(Vec<String>),
    /// The reason for which the tables could not be listed.
    Failed(String),
}

/// The first database whose tables could not be listed, with the reason.
pub open spec fn first_failed_listing_of(listings: Seq<(String, Listing)>) -> Option<DiffErrorView>
    decreases listings.len(),
{
    if listings.len() == 0 {
        None
    } else {
        match listings.first().1 {
            Listing::Failed(reason) => Some(
                DiffErrorView::CatalogList { database: listings.first().0@, reason: reason@ },
            ),
            Listing::Tables(_) => first_failed_listing_of(listings.drop_first()),
        }
    }
}

/// Whether the catalog holds what the listings say: the databases in their
/// order, each with its tables.
pub open spec fn catalog_matches(
    catalog: Seq<CatalogDatabase>,
    listings: Seq<(String, Listing)>,
) -> bool {
    &&& catalog.len() == listings.len()
    &&& forall|i: int|
        0 <= i < catalog.len() ==> (#[trigger] catalog[i]).name@ == listings[i].0@
            && listings[i].1 == Listing::Tables(catalog[i].tables)
}

/// Puts the catalog together from the listings of the databases. A
/// database whose tables could not be listed makes the whole catalog
/// fail: the first such database is reported.
pub fn build_catalog(listings: Vec<(String, Listing)>) -> (r: Result<
    Vec<CatalogDatabase>,
    DiffError,
>)
    ensures
        match r {
            Ok(catalog) => first_failed_listing_of(listings@) is None && catalog_matches(
                catalog@,
                listings@,
            ),
            Err(e) => first_failed_listing_of(listings@) == Some(e@),
        },
{
    let mut catalog: Vec<CatalogDatabase> = Vec::new();
    let ghost all = listings@;
    assert(all.skip(0) == all);
    for listing in it: listings.into_iter()
        invariant
            it.seq() == all,
            first_failed_listing_of(all) == first_failed_listing_of(all.skip(it.index() as int)),
            catalog@.len() == it.index(),
            forall|i: int|
                0 <= i < catalog@.len() ==> (#[trigger] catalog@[i]).name@ == all[i].0@ && all[i].1
                    == Listing::Tables(catalog@[i].tables),
    {
        proof {
            assert(all.skip(it.index() as int).drop_first() == all.skip(it.index() + 1));
        }
        let (name, answer) = listing;
        match answer {
            Listing::Tables(tables) => {
                catalog.push(CatalogDatabase { name, tables });
            },
            Listing::Failed(reason) => {
                return Err(DiffError::CatalogList { database: name, reason });
            },
        }
    }
    Ok(catalog)
}

} // verus!
