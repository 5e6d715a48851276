//! Definition texts by table.

use vstd::prelude::*;

verus! {

/// The definition text of one table, under the key of the table.
#[derive(Debug, Clone, PartialEq)]
pub struct Definition {
    pub database_name: String,
    pub table_name: String,
    pub sql: String,
}

/// Mathematical content of a [`Definition`].
pub ghost struct DefinitionView {
    pub database_name: Seq<char>,
    pub table_name: Seq<char>,
    pub sql: Seq<char>,
}

impl View for Definition {
    type V = DefinitionView;

    open spec fn view(&self) -> DefinitionView {
        DefinitionView {
            database_name: self.database_name@,
            table_name: self.table_name@,
            sql: self.sql@,
        }
    }
}

/// The views of a sequence of definitions.
pub open spec fn definition_views(definitions: Seq<Definition>) -> Seq<DefinitionView> {
    definitions.map_values(|d: Definition| d@)
}

/// Whether `d` is the definition of the table `table` of `database`.
pub open spec fn has_key(d: DefinitionView, database: Seq<char>, table: Seq<char>) -> bool {
    d.database_name == database && d.table_name == table
}

/// Whether no table has two definitions.
pub open spec fn keys_distinct(definitions: Seq<DefinitionView>) -> bool {
    forall|i: int, j: int|
        0 <= i < j < definitions.len() ==> !has_key(
            definitions[i],
            definitions[j].database_name,
            definitions[j].table_name,
        )
}

/// Position of the first definition of the table, or the number of
/// definitions where there is none.
pub open spec fn key_position(
    definitions: Seq<DefinitionView>,
    database: Seq<char>,
    table: Seq<char>,
) -> int
    decreases definitions.len(),
{
    if definitions.len() == 0 {
        0
    } else if has_key(definitions.first(), database, table) {
        0
    } else {
        1 + key_position(definitions.drop_first(), database, table)
    }
}

/// Whether the table has a definition among `definitions`.
pub open spec fn defines(
    definitions: Seq<DefinitionView>,
    database: Seq<char>,
    table: Seq<char>,
) -> bool {
    key_position(definitions, database, table) < definitions.len()
}

/// The definition text of the table among `definitions`.
pub open spec fn sql_of(
    definitions: Seq<DefinitionView>,
    database: Seq<char>,
    table: Seq<char>,
) -> Option<Seq<char>> {
    let at = key_position(definitions, database, table);
    if at < definitions.len() {
        Some(definitions[at].sql)
    } else {
        None
    }
}

/// `definitions` after the table was given the text `sql`: its definition
/// is replaced where it stands, or a new one is added at the end.
pub open spec fn defined_of(
    definitions: Seq<DefinitionView>,
    database: Seq<char>,
    table: Seq<char>,
    sql: Seq<char>,
) -> Seq<DefinitionView> {
    let at = key_position(definitions, database, table);
    let entry = DefinitionView { database_name: database, table_name: table, sql };
    if at < definitions.len() {
        definitions.update(at, entry)
    } else {
        definitions.push(entry)
    }
}

/// `key_position` finds the first definition of the table and nothing
/// before it.
pub proof fn lemma_key_position(
    definitions: Seq<DefinitionView>,
    database: Seq<char>,
    table: Seq<char>,
)
    ensures
        0 <= key_position(definitions, database, table) <= definitions.len(),
        defines(definitions, database, table) ==> has_key(
            definitions[key_position(definitions, database, table)],
            database,
            table,
        ),
        forall|j: int|
            0 <= j < key_position(definitions, database, table) ==> !has_key(
                #[trigger] definitions[j],
                database,
                table,
            ),
    decreases definitions.len(),
{
    if definitions.len() > 0 && !has_key(definitions.first(), database, table) {
        let rest = definitions.drop_first();
        lemma_key_position(rest, database, table);
        assert forall|j: int| 0 <= j < key_position(definitions, database, table) implies !has_key(
            #[trigger] definitions[j],
            database,
            table,
        ) by {
            if j > 0 {
                assert(definitions[j] == rest[j - 1]);
            }
        }
    }
}

/// A table is defined exactly where some definition carries its key.
pub proof fn lemma_defines_iff_some(
    definitions: Seq<DefinitionView>,
    database: Seq<char>,
    table: Seq<char>,
)
    ensures
        defines(definitions, database, table) <==> exists|i: int|
            0 <= i < definitions.len() && has_key(#[trigger] definitions[i], database, table),
{
    lemma_key_position(definitions, database, table);
    if defines(definitions, database, table) {
        let at = key_position(definitions, database, table);
        assert(has_key(definitions[at], database, table));
    }
}

/// The position at which the key first stands, with none before it, is
/// the one that `key_position` gives.
proof fn lemma_key_position_is(
    definitions: Seq<DefinitionView>,
    database: Seq<char>,
    table: Seq<char>,
    position: int,
)
    requires
        0 <= position <= definitions.len(),
        forall|j: int|
            0 <= j < position ==> !has_key(#[trigger] definitions[j], database, table),
        position < definitions.len() ==> has_key(definitions[position], database, table),
    ensures
        key_position(definitions, database, table) == position,
    decreases definitions.len(),
{
    if definitions.len() > 0 && position > 0 {
        let rest = definitions.drop_first();
        assert(!has_key(definitions[0], database, table));
        assert forall|j: int| 0 <= j < position - 1 implies !has_key(
            #[trigger] rest[j],
            database,
            table,
        ) by {
            assert(rest[j] == definitions[j + 1]);
        }
        lemma_key_position_is(rest, database, table, position - 1);
    }
}

/// After a table was given a text it has that text, and every other table
/// has what it had.
pub proof fn lemma_defined_sql(
    definitions: Seq<DefinitionView>,
    database: Seq<char>,
    table: Seq<char>,
    sql: Seq<char>,
    other_database: Seq<char>,
    other_table: Seq<char>,
)
    ensures
        sql_of(defined_of(definitions, database, table, sql), other_database, other_table) == if other_database == database && other_table == table {
            Some(sql)
        } else {
            sql_of(definitions, other_database, other_table)
        },
{
    let after = defined_of(definitions, database, table, sql);
    let at = key_position(definitions, database, table);
    lemma_key_position(definitions, database, table);
    if other_database == database && other_table == table {
        assert forall|j: int| 0 <= j < at implies !has_key(#[trigger] after[j], database, table) by {
            assert(after[j] == definitions[j]);
        }
        lemma_key_position_is(after, database, table, at);
    } else {
        let other = key_position(definitions, other_database, other_table);
        lemma_key_position(definitions, other_database, other_table);
        if other < definitions.len() {
            assert(other != at);
            assert forall|j: int| 0 <= j < other implies !has_key(
                #[trigger] after[j],
                other_database,
                other_table,
            ) by {
                if j != at {
                    assert(after[j] == definitions[j]);
                }
            }
            assert(after[other] == definitions[other]);
            lemma_key_position_is(after, other_database, other_table, other);
        } else {
            assert forall|j: int| 0 <= j < after.len() implies !has_key(
                #[trigger] after[j],
                other_database,
                other_table,
            ) by {
                if j != at {
                    assert(after[j] == definitions[j]);
                }
            }
            lemma_key_position_is(after, other_database, other_table, after.len() as int);
        }
    }
}

/// Defining a table keeps the keys distinct.
pub proof fn lemma_defined_distinct(
    definitions: Seq<DefinitionView>,
    database: Seq<char>,
    table: Seq<char>,
    sql: Seq<char>,
)
    requires
        keys_distinct(definitions),
    ensures
        keys_distinct(defined_of(definitions, database, table, sql)),
{
    lemma_key_position(definitions, database, table);
}

/// Definition texts by table, in the order in which the tables first came,
/// with no table twice. The tables are walked in that order, so that equal
/// sets always give their decisions in the same order.
#[derive(Debug, PartialEq)]
pub struct DefinitionSet {
    entries: Vec<Definition>,
}

impl View for DefinitionSet {
    type V = Seq<DefinitionView>;

    closed spec fn view(&self) -> Seq<DefinitionView> {
        definition_views(self.entries@)
    }
}

impl DefinitionSet {
    #[verifier::type_invariant]
    spec fn well_formed(self) -> bool {
        keys_distinct(definition_views(self.entries@))
    }

    /// The set without definitions.
    pub fn new() -> (set: Self)
        ensures
            set@ == Seq::<DefinitionView>::empty(),
    {
        let set = DefinitionSet { entries: Vec::new() };
        set
    }

    /// Number of tables defined.
    pub fn len(&self) -> (n: usize)
        ensures
            n == self@.len(),
    {
        self.entries.len()
    }

    /// No table has two definitions in a set. A call states this of the
    /// set at hand; nothing is computed.
    pub fn holds_each_table_once(&self)
        ensures
            keys_distinct(self@),
    {
        proof {
            use_type_invariant(self);
        }
    }

    /// Whether no table is defined.
    pub fn is_empty(&self) -> (b: bool)
        ensures
            b == (self@.len() == 0),
    {
        self.entries.len() == 0
    }

    /// Position of the definition of the table, or the number of
    /// definitions.
    pub(crate) fn find(&self, database: &String, table: &String) -> (at: usize)
        ensures
            at == key_position(self@, database@, table@),
            at <= self@.len(),
    {
        let mut i: usize = 0;
        let ghost all = definition_views(self.entries@);
        assert(all.skip(0) == all);
        while i < self.entries.len() && !(self.entries[i].database_name == *database
            && self.entries[i].table_name == *table)
            invariant
                i <= self.entries.len(),
                all == definition_views(self.entries@),
                key_position(all, database@, table@) == i + key_position(
                    all.skip(i as int),
                    database@,
                    table@,
                ),
            decreases self.entries.len() - i,
        {
            assert(all.skip(i as int).drop_first() == all.skip(i + 1));
            i = i + 1;
        }
        i
    }

    /// The definition text of the table.
    pub fn get(&self, database: &str, table: &str) -> (sql: Option<&String>)
        ensures
            match sql {
                Some(text) => sql_of(self@, database@, table@) == Some(text@),
                None => sql_of(self@, database@, table@) is None,
            },
    {
        let at = self.find(&database.to_owned(), &table.to_owned());
        if at < self.entries.len() {
            Some(&self.entries[at].sql)
        } else {
            None
        }
    }

    /// Whether the table is defined.
    pub fn contains_key(&self, database: &str, table: &str) -> (b: bool)
        ensures
            b == defines(self@, database@, table@),
    {
        let at = self.find(&database.to_owned(), &table.to_owned());
        at < self.entries.len()
    }

    /// The definition at position `index`.
    pub fn entry(&self, index: usize) -> (definition: &Definition)
        requires
            index < self@.len(),
        ensures
            definition@ == self@[index as int],
    {
        &self.entries[index]
    }

    /// Gives the table the definition text `sql`. A table that is defined
    /// keeps its place; a new one comes last.
    pub fn insert(&mut self, database: String, table: String, sql: String)
        ensures
            final(self)@ == defined_of(old(self)@, database@, table@, sql@),
    {
        proof {
            use_type_invariant(&*self);
            lemma_defined_distinct(self@, database@, table@, sql@);
        }
        let at = self.find(&database, &table);
        let ghost before = definition_views(self.entries@);
        let mut entries: Vec<Definition> = Vec::new();
        core::mem::swap(&mut self.entries, &mut entries);
        let entry = Definition { database_name: database, table_name: table, sql };
        if at < entries.len() {
            entries.set(at, entry);
            assert(definition_views(entries@) =~= before.update(at as int, entry@));
        } else {
            entries.push(entry);
            assert(definition_views(entries@) =~= before.push(entry@));
        }
        core::mem::swap(&mut self.entries, &mut entries);
    }
}

} // verus!
