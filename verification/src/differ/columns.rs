//! The columns of a definition, read off its text without a full parse, and
//! the changes between two sets of columns.

use crate::text::{
    chars_of, find_char, find_space, first_index_of, first_space_of, lemma_seqs_of_push,
    lemma_texts_of_push, lowercase_of, opt_pair_text, pair_views, seqs_of, slice_of, starts_with,
    string_of, texts_of, to_lowercase, trim, trim_of,
};
use crate::types::diff_result::{ColumnChange, ColumnChangeType, ColumnChangeView};
use vstd::prelude::*;

verus! {

/// By how much a character changes the nesting depth: brackets of column
/// lists and of `struct<..>`, `array<..>` and `map<..>` types are counted.
pub open spec fn depth_change(c: char) -> int {
    if c == '(' || c == '<' {
        1
    } else if c == ')' || c == '>' {
        -1
    } else {
        0
    }
}

/// The nesting depth after the characters of `s`.
pub open spec fn depth_of(s: Seq<char>) -> int
    decreases s.len(),
{
    if s.len() == 0 {
        0
    } else {
        depth_of(s.drop_last()) + depth_change(s.last())
    }
}

/// The depth never leaves the range that the number of characters allows.
pub proof fn lemma_depth_bound(s: Seq<char>)
    ensures
        -s.len() <= depth_of(s) <= s.len(),
    decreases s.len(),
{
    if s.len() > 0 {
        lemma_depth_bound(s.drop_last());
    }
}

/// The pieces of `s` between the commas that stand at depth 0.
pub open spec fn split_top_level_of(s: Seq<char>) -> Seq<Seq<char>>
    decreases s.len(),
{
    if s.len() == 0 {
        seq![Seq::<char>::empty()]
    } else {
        let init = split_top_level_of(s.drop_last());
        if s.last() == ',' && depth_of(s.drop_last()) == 0 {
            init.push(Seq::<char>::empty())
        } else {
            init.drop_last().push(init.last().push(s.last()))
        }
    }
}

/// The pieces of `parts`, each without surrounding white space, but for
/// those that are empty then.
pub open spec fn nonempty_trimmed_of(parts: Seq<Seq<char>>) -> Seq<Seq<char>>
    decreases parts.len(),
{
    if parts.len() == 0 {
        Seq::<Seq<char>>::empty()
    } else {
        let init = nonempty_trimmed_of(parts.drop_last());
        let piece = trim_of(parts.last());
        if piece.len() > 0 {
            init.push(piece)
        } else {
            init
        }
    }
}

/// The column definitions in the text of a column list: the text between
/// top-level commas, trimmed, empty pieces left out.
pub open spec fn column_fragments_of(s: Seq<char>) -> Seq<Seq<char>> {
    nonempty_trimmed_of(split_top_level_of(s))
}

/// The pieces of `v` between the commas that stand at depth 0.
fn split_top_level(v: &Vec<char>) -> (parts: Vec<Vec<char>>)
    ensures
        seqs_of(parts@) == split_top_level_of(v@),
{
    let mut parts: Vec<Vec<char>> = Vec::new();
    let mut current: Vec<char> = Vec::new();
    let mut depth: i128 = 0;
    let mut i: usize = 0;
    while i < v.len()
        invariant
            i <= v.len(),
            depth == depth_of(v@.take(i as int)),
            seqs_of(parts@).push(current@) == split_top_level_of(v@.take(i as int)),
        decreases v.len() - i,
    {
        let c = v[i];
        proof {
            assert(v@.take(i + 1).drop_last() == v@.take(i as int));
            lemma_depth_bound(v@.take(i as int));
            lemma_depth_bound(v@.take(i + 1));
        }
        if c == ',' && depth == 0 {
            proof {
                lemma_seqs_of_push(parts@, current);
            }
            parts.push(current);
            current = Vec::new();
        } else {
            current.push(c);
        }
        if c == '(' || c == '<' {
            depth = depth + 1;
        } else if c == ')' || c == '>' {
            depth = depth - 1;
        }
        i = i + 1;
    }
    assert(v@.take(v.len() as int) == v@);
    proof {
        lemma_seqs_of_push(parts@, current);
    }
    parts.push(current);
    parts
}

/// Splits the text of a column list into its column definitions. Commas
/// inside brackets do not split.
pub fn split_column_definitions(input: &str) -> (definitions: Vec<String>)
    ensures
        texts_of(definitions@) == column_fragments_of(input@),
{
    let chars = chars_of(input);
    let parts = split_top_level(&chars);
    let mut definitions: Vec<String> = Vec::new();
    let mut i: usize = 0;
    let ghost all = seqs_of(parts@);
    while i < parts.len()
        invariant
            i <= parts.len(),
            all == seqs_of(parts@),
            texts_of(definitions@) == nonempty_trimmed_of(all.take(i as int)),
        decreases parts.len() - i,
    {
        let piece = trim(&parts[i]);
        proof {
            assert(all.take(i + 1).drop_last() =~= all.take(i as int));
        }
        if piece.len() > 0 {
            let text = string_of(&piece);
            proof {
                lemma_texts_of_push(definitions@, text);
            }
            definitions.push(text);
        }
        i = i + 1;
    }
    assert(all.take(parts.len() as int) =~= all);
    definitions
}

/// The name and the type that a column definition gives: the name is the
/// text before the first white space, the type what follows it, trimmed.
/// There is none where either would be empty.
pub open spec fn column_of(definition: Seq<char>) -> Option<(Seq<char>, Seq<char>)> {
    let text = trim_of(definition);
    let at = first_space_of(text);
    if at >= text.len() {
        None
    } else {
        let name = text.take(at);
        let data_type = trim_of(text.skip(at + 1));
        if name.len() > 0 && data_type.len() > 0 {
            Some((name, data_type))
        } else {
            None
        }
    }
}

/// Reads one column definition as a name and a type.
pub fn parse_column_definition(input: &str) -> (column: Option<(String, String)>)
    ensures
        opt_pair_text(column) == column_of(input@),
{
    let chars = chars_of(input);
    let text = trim(&chars);
    let at = find_space(&text);
    if at >= text.len() {
        return None;
    }
    let name = slice_of(&text, 0, at);
    let rest = slice_of(&text, at + 1, text.len());
    let data_type = trim(&rest);
    if name.len() > 0 && data_type.len() > 0 {
        Some((string_of(&name), string_of(&data_type)))
    } else {
        None
    }
}

/// Columns by name: pairs of a name and a type, in the order in which the
/// names first came, with no name twice. The columns are walked in that
/// order, so that equal texts always give their changes in the same order.
#[derive(Debug, PartialEq)]
pub struct ColumnMap {
    entries: Vec<(String, String)>,
}

/// Whether no name stands in two entries.
pub open spec fn names_distinct(entries: Seq<(Seq<char>, Seq<char>)>) -> bool {
    forall|i: int, j: int| 0 <= i < j < entries.len() ==> entries[i].0 != entries[j].0
}

/// Position of the first entry named `name`, or the number of entries where
/// there is none.
pub open spec fn position_of(entries: Seq<(Seq<char>, Seq<char>)>, name: Seq<char>) -> int
    decreases entries.len(),
{
    if entries.len() == 0 {
        0
    } else if entries.first().0 == name {
        0
    } else {
        1 + position_of(entries.drop_first(), name)
    }
}

/// The type that `entries` give for `name`.
pub open spec fn type_of(entries: Seq<(Seq<char>, Seq<char>)>, name: Seq<char>) -> Option<
    Seq<char>,
> {
    let at = position_of(entries, name);
    if at < entries.len() {
        Some(entries[at].1)
    } else {
        None
    }
}

/// `entries` after `name` was given the type `data_type`: the entry of that
/// name is replaced where it stands, or a new entry is added at the end.
pub open spec fn inserted_of(
    entries: Seq<(Seq<char>, Seq<char>)>,
    name: Seq<char>,
    data_type: Seq<char>,
) -> Seq<(Seq<char>, Seq<char>)> {
    let at = position_of(entries, name);
    if at < entries.len() {
        entries.update(at, (name, data_type))
    } else {
        entries.push((name, data_type))
    }
}

/// `position_of` finds the first entry of the name and nothing before it.
pub proof fn lemma_position_of(entries: Seq<(Seq<char>, Seq<char>)>, name: Seq<char>)
    ensures
        0 <= position_of(entries, name) <= entries.len(),
        position_of(entries, name) < entries.len() ==> entries[position_of(entries, name)].0
            == name,
        forall|j: int| 0 <= j < position_of(entries, name) ==> entries[j].0 != name,
    decreases entries.len(),
{
    if entries.len() > 0 && entries.first().0 != name {
        let rest = entries.drop_first();
        lemma_position_of(rest, name);
        assert forall|j: int| 0 <= j < position_of(entries, name) implies entries[j].0 != name by {
            if j > 0 {
                assert(entries[j] == rest[j - 1]);
            }
        }
    }
}

/// Giving a name a type keeps the names distinct.
pub proof fn lemma_inserted_distinct(
    entries: Seq<(Seq<char>, Seq<char>)>,
    name: Seq<char>,
    data_type: Seq<char>,
)
    requires
        names_distinct(entries),
    ensures
        names_distinct(inserted_of(entries, name, data_type)),
{
    lemma_position_of(entries, name);
}

impl View for ColumnMap {
    type V = Seq<(Seq<char>, Seq<char>)>;

    closed spec fn view(&self) -> Seq<(Seq<char>, Seq<char>)> {
        pair_views(self.entries@)
    }
}

impl ColumnMap {
    #[verifier::type_invariant]
    spec fn well_formed(self) -> bool {
        names_distinct(pair_views(self.entries@))
    }

    /// The map without columns.
    pub fn new() -> (m: Self)
        ensures
            m@ == Seq::<(Seq<char>, Seq<char>)>::empty(),
    {
        let m = ColumnMap { entries: Vec::new() };
        m
    }

    /// Number of columns.
    pub fn len(&self) -> (n: usize)
        ensures
            n == self@.len(),
    {
        self.entries.len()
    }

    /// No name stands for two columns in a map. A call states this of the
    /// map at hand; nothing is computed.
    pub fn holds_each_name_once(&self)
        ensures
            names_distinct(self@),
    {
        proof {
            use_type_invariant(self);
        }
    }

    /// Whether there is no column.
    pub fn is_empty(&self) -> (b: bool)
        ensures
            b == (self@.len() == 0),
    {
        self.entries.len() == 0
    }

    /// Position of the entry named `name`, or the number of entries.
    fn find(&self, name: &String) -> (at: usize)
        ensures
            at == position_of(self@, name@),
            at <= self.entries@.len(),
    {
        let mut i: usize = 0;
        let ghost all = pair_views(self.entries@);
        assert(all.skip(0) == all);
        while i < self.entries.len() && !(self.entries[i].0 == *name)
            invariant
                i <= self.entries.len(),
                all == pair_views(self.entries@),
                position_of(all, name@) == i + position_of(all.skip(i as int), name@),
            decreases self.entries.len() - i,
        {
            assert(all.skip(i as int).drop_first() == all.skip(i + 1));
            i = i + 1;
        }
        i
    }

    /// The type of the column named `name`.
    pub fn get(&self, name: &str) -> (data_type: Option<&String>)
        ensures
            match data_type {
                Some(t) => type_of(self@, name@) == Some(t@),
                None => type_of(self@, name@) is None,
            },
    {
        let owned = name.to_owned();
        let at = self.find(&owned);
        if at < self.entries.len() {
            Some(&self.entries[at].1)
        } else {
            None
        }
    }

    /// Whether there is a column named `name`.
    pub fn contains_key(&self, name: &str) -> (b: bool)
        ensures
            b == type_of(self@, name@).is_some(),
    {
        let owned = name.to_owned();
        let at = self.find(&owned);
        at < self.entries.len()
    }

    /// Gives the column `name` the type `data_type`. A column of that name
    /// keeps its place; a new one comes last.
    pub fn insert(&mut self, name: String, data_type: String)
        ensures
            final(self)@ == inserted_of(old(self)@, name@, data_type@),
    {
        proof {
            use_type_invariant(&*self);
            lemma_inserted_distinct(self@, name@, data_type@);
        }
        let at = self.find(&name);
        let ghost before = pair_views(self.entries@);
        let mut entries: Vec<(String, String)> = Vec::new();
        core::mem::swap(&mut self.entries, &mut entries);
        if at < entries.len() {
            entries.set(at, (name, data_type));
            assert(pair_views(entries@) =~= before.update(at as int, (name@, data_type@)));
        } else {
            entries.push((name, data_type));
            assert(pair_views(entries@) =~= before.push((name@, data_type@)));
        }
        core::mem::swap(&mut self.entries, &mut entries);
    }
}

/// Whether a line, leading white space and case set aside, begins with one
/// of the words that follow a column list: `STORED`, `PARTITIONED`,
/// `LOCATION` or `ROW FORMAT`.
pub open spec fn begins_with_keyword(line: Seq<char>) -> bool {
    let text = lowercase_of(trim_of(line));
    ||| "stored"@.is_prefix_of(text)
    ||| "partitioned"@.is_prefix_of(text)
    ||| "location"@.is_prefix_of(text)
    ||| "row format"@.is_prefix_of(text)
}

/// The line of `s` that starts at `at`, without its line feed.
pub open spec fn line_at(s: Seq<char>, at: int) -> Seq<char> {
    let rest = s.skip(at);
    rest.take(first_index_of(rest, '\n'))
}

/// Whether the column list that `body` begins with ends before position
/// `at`: there stands a closing parenthesis at depth 0, or a line begins
/// there with one of the words that follow a column list.
pub open spec fn ends_column_list(body: Seq<char>, at: int) -> bool {
    ||| body[at] == ')' && depth_of(body.take(at)) == 0
    ||| at > 0 && body[at - 1] == '\n' && begins_with_keyword(line_at(body, at))
}

/// The first position from `from` on at which the column list ends, or the
/// length of `body`.
pub open spec fn column_list_end(body: Seq<char>, from: int) -> int
    decreases body.len() - from,
{
    if from < 0 || from >= body.len() {
        body.len() as int
    } else if ends_column_list(body, from) {
        from
    } else {
        column_list_end(body, from + 1)
    }
}

/// The text of the column list of a definition: what follows the first
/// opening parenthesis, up to the end of the list. Empty where the
/// definition has no opening parenthesis.
pub open spec fn column_list_of(ddl: Seq<char>) -> Seq<char> {
    let open = first_index_of(ddl, '(');
    if open >= ddl.len() {
        Seq::<char>::empty()
    } else {
        let body = ddl.skip(open + 1);
        body.take(column_list_end(body, 0))
    }
}

/// The columns that a sequence of column definitions gives, names and types
/// in lower case. Of two definitions of one name the later gives the type.
pub open spec fn columns_from(definitions: Seq<Seq<char>>) -> Seq<(Seq<char>, Seq<char>)>
    decreases definitions.len(),
{
    if definitions.len() == 0 {
        Seq::<(Seq<char>, Seq<char>)>::empty()
    } else {
        let init = columns_from(definitions.drop_last());
        match column_of(definitions.last()) {
            Some((name, data_type)) => inserted_of(
                init,
                lowercase_of(name),
                lowercase_of(data_type),
            ),
            None => init,
        }
    }
}

/// The columns of a definition, by name.
pub open spec fn columns_of(ddl: Seq<char>) -> Seq<(Seq<char>, Seq<char>)> {
    columns_from(column_fragments_of(column_list_of(ddl)))
}

/// Whether `line` begins with one of the words that follow a column list.
fn is_keyword_line(line: &Vec<char>) -> (b: bool)
    ensures
        b == begins_with_keyword(line@),
{
    let text = string_of(&trim(line));
    let lower = chars_of(to_lowercase(text.as_str()).as_str());
    starts_with(&lower, &chars_of("stored")) || starts_with(&lower, &chars_of("partitioned"))
        || starts_with(&lower, &chars_of("location")) || starts_with(&lower, &chars_of("row format"))
}

/// The line of `body` that starts at `at`, without its line feed.
fn line_from(body: &Vec<char>, at: usize) -> (line: Vec<char>)
    requires
        at <= body.len(),
    ensures
        line@ == line_at(body@, at as int),
{
    let rest = slice_of(body, at, body.len());
    let end = find_char(&rest, '\n');
    let line = slice_of(&rest, 0, end);
    line
}

/// The text of the column list of a definition.
fn column_list(ddl: &Vec<char>) -> (list: Vec<char>)
    ensures
        list@ == column_list_of(ddl@),
{
    let open = find_char(ddl, '(');
    if open >= ddl.len() {
        return Vec::new();
    }
    let body = slice_of(ddl, open + 1, ddl.len());
    let mut at: usize = 0;
    let mut depth: i128 = 0;
    let mut done = false;
    while at < body.len() && !done
        invariant
            at <= body.len(),
            depth == depth_of(body@.take(at as int)),
            column_list_end(body@, 0) == column_list_end(body@, at as int),
            done ==> at < body.len() && ends_column_list(body@, at as int),
        decreases body.len() - at, if done { 0int } else { 1int },
    {
        let c = body[at];
        let mut stop = c == ')' && depth == 0;
        if !stop && at > 0 && body[at - 1] == '\n' {
            let line = line_from(&body, at);
            stop = is_keyword_line(&line);
        }
        if stop {
            done = true;
        } else {
            proof {
                assert(body@.take(at + 1).drop_last() == body@.take(at as int));
                lemma_depth_bound(body@.take(at as int));
                lemma_depth_bound(body@.take(at + 1));
            }
            if c == '(' || c == '<' {
                depth = depth + 1;
            } else if c == ')' || c == '>' {
                depth = depth - 1;
            }
            at = at + 1;
        }
    }
    slice_of(&body, 0, at)
}

/// Reads the columns of a definition without parsing the whole statement:
/// the column list is located by its parentheses, split at top-level commas,
/// and each piece read as a name followed by a type.
pub fn extract_columns(sql: &str) -> (columns: ColumnMap)
    ensures
        columns@ == columns_of(sql@),
        names_distinct(columns@),
{
    let chars = chars_of(sql);
    let list = string_of(&column_list(&chars));
    let definitions = split_column_definitions(list.as_str());
    let mut columns = ColumnMap::new();
    let mut i: usize = 0;
    let ghost all = texts_of(definitions@);
    while i < definitions.len()
        invariant
            i <= definitions.len(),
            all == texts_of(definitions@),
            columns@ == columns_from(all.take(i as int)),
        decreases definitions.len() - i,
    {
        proof {
            assert(all.take(i + 1).drop_last() =~= all.take(i as int));
        }
        match parse_column_definition(definitions[i].as_str()) {
            Some((name, data_type)) => {
                columns.insert(to_lowercase(name.as_str()), to_lowercase(data_type.as_str()));
            },
            None => {},
        }
        i = i + 1;
    }
    assert(all.take(definitions.len() as int) =~= all);
    columns.holds_each_name_once();
    columns
}

/// The views of a sequence of column changes.
pub open spec fn column_change_views(changes: Seq<ColumnChange>) -> Seq<ColumnChangeView> {
    changes.map_values(|c: ColumnChange| c@)
}

/// The columns of `remote` that `local` does not name, as removals, in the
/// order of `remote`.
pub open spec fn removed_columns_of(
    remote: Seq<(Seq<char>, Seq<char>)>,
    local: Seq<(Seq<char>, Seq<char>)>,
) -> Seq<ColumnChangeView>
    decreases remote.len(),
{
    if remote.len() == 0 {
        Seq::<ColumnChangeView>::empty()
    } else {
        let init = removed_columns_of(remote.drop_last(), local);
        if type_of(local, remote.last().0) is None {
            init.push(
                ColumnChangeView {
                    change_type: ColumnChangeType::Removed,
                    column_name: remote.last().0,
                    old_type: Some(remote.last().1),
                    new_type: None,
                },
            )
        } else {
            init
        }
    }
}

/// The columns of `local` that `remote` does not name, as additions, and
/// those to which it gives another type, as changes of type, in the order of
/// `local`.
pub open spec fn added_or_retyped_columns_of(
    remote: Seq<(Seq<char>, Seq<char>)>,
    local: Seq<(Seq<char>, Seq<char>)>,
) -> Seq<ColumnChangeView>
    decreases local.len(),
{
    if local.len() == 0 {
        Seq::<ColumnChangeView>::empty()
    } else {
        let init = added_or_retyped_columns_of(remote, local.drop_last());
        match type_of(remote, local.last().0) {
            None => init.push(
                ColumnChangeView {
                    change_type: ColumnChangeType::Added,
                    column_name: local.last().0,
                    old_type: None,
                    new_type: Some(local.last().1),
                },
            ),
            Some(old_type) => if old_type != local.last().1 {
                init.push(
                    ColumnChangeView {
                        change_type: ColumnChangeType::TypeChanged,
                        column_name: local.last().0,
                        old_type: Some(old_type),
                        new_type: Some(local.last().1),
                    },
                )
            } else {
                init
            },
        }
    }
}

/// The column changes that lead from `remote` to `local`: removals first,
/// then additions and changes of type.
pub open spec fn column_changes_of(
    remote: Seq<(Seq<char>, Seq<char>)>,
    local: Seq<(Seq<char>, Seq<char>)>,
) -> Seq<ColumnChangeView> {
    removed_columns_of(remote, local) + added_or_retyped_columns_of(remote, local)
}

/// Compares the columns of the remote definition with those of the local
/// one.
pub fn detect_column_changes(remote_columns: &ColumnMap, local_columns: &ColumnMap) -> (changes:
    Vec<ColumnChange>)
    ensures
        column_change_views(changes@) == column_changes_of(remote_columns@, local_columns@),
{
    let mut changes: Vec<ColumnChange> = Vec::new();
    let ghost remote = remote_columns@;
    let ghost local = local_columns@;
    let mut i: usize = 0;
    while i < remote_columns.entries.len()
        invariant
            i <= remote_columns.entries.len(),
            remote == remote_columns@,
            local == local_columns@,
            column_change_views(changes@) == removed_columns_of(remote.take(i as int), local),
        decreases remote_columns.entries.len() - i,
    {
        proof {
            assert(remote.take(i + 1).drop_last() =~= remote.take(i as int));
        }
        let name = &remote_columns.entries[i].0;
        let data_type = &remote_columns.entries[i].1;
        if local_columns.find(name) >= local_columns.entries.len() {
            let change = ColumnChange {
                change_type: ColumnChangeType::Removed,
                column_name: name.clone(),
                old_type: Some(data_type.clone()),
                new_type: None,
            };
            changes.push(change);
        }
        i = i + 1;
    }
    assert(remote.take(remote.len() as int) =~= remote);
    let ghost removed = column_change_views(changes@);
    let mut j: usize = 0;
    while j < local_columns.entries.len()
        invariant
            j <= local_columns.entries.len(),
            remote == remote_columns@,
            local == local_columns@,
            removed == removed_columns_of(remote, local),
            column_change_views(changes@) == removed + added_or_retyped_columns_of(
                remote,
                local.take(j as int),
            ),
        decreases local_columns.entries.len() - j,
    {
        proof {
            assert(local.take(j + 1).drop_last() =~= local.take(j as int));
        }
        let ghost so_far = added_or_retyped_columns_of(remote, local.take(j as int));
        let name = &local_columns.entries[j].0;
        let new_type = &local_columns.entries[j].1;
        let at = remote_columns.find(name);
        if at >= remote_columns.entries.len() {
            let change = ColumnChange {
                change_type: ColumnChangeType::Added,
                column_name: name.clone(),
                old_type: None,
                new_type: Some(new_type.clone()),
            };
            assert((removed + so_far).push(change@) =~= removed + so_far.push(change@));
            changes.push(change);
        } else {
            let old_type = &remote_columns.entries[at].1;
            if !(*old_type == *new_type) {
                let change = ColumnChange {
                    change_type: ColumnChangeType::TypeChanged,
                    column_name: name.clone(),
                    old_type: Some(old_type.clone()),
                    new_type: Some(new_type.clone()),
                };
                assert((removed + so_far).push(change@) =~= removed + so_far.push(change@));
                changes.push(change);
            }
        }
        j = j + 1;
    }
    assert(local.take(local.len() as int) =~= local);
    changes
}

/// The columns read off a sequence of definitions have distinct names.
pub proof fn lemma_columns_from_distinct(definitions: Seq<Seq<char>>)
    ensures
        names_distinct(columns_from(definitions)),
    decreases definitions.len(),
{
    if definitions.len() > 0 {
        lemma_columns_from_distinct(definitions.drop_last());
        match column_of(definitions.last()) {
            Some((name, data_type)) => {
                lemma_inserted_distinct(
                    columns_from(definitions.drop_last()),
                    lowercase_of(name),
                    lowercase_of(data_type),
                );
            },
            None => {},
        }
    }
}

/// Where names are distinct, every entry gives the type of its own name.
proof fn lemma_type_of_own(entries: Seq<(Seq<char>, Seq<char>)>, i: int)
    requires
        names_distinct(entries),
        0 <= i < entries.len(),
    ensures
        type_of(entries, entries[i].0) == Some(entries[i].1),
{
    lemma_position_of(entries, entries[i].0);
    let at = position_of(entries, entries[i].0);
    if at < i {
        assert(entries[at].0 != entries[i].0);
    }
}

/// No column of a beginning of `entries` is missing from `entries`.
proof fn lemma_none_removed(entries: Seq<(Seq<char>, Seq<char>)>, count: int)
    requires
        names_distinct(entries),
        0 <= count <= entries.len(),
    ensures
        removed_columns_of(entries.take(count), entries).len() == 0,
    decreases count,
{
    if count > 0 {
        lemma_none_removed(entries, count - 1);
        lemma_type_of_own(entries, count - 1);
        assert(entries.take(count).drop_last() =~= entries.take(count - 1));
    }
}

/// No column of a beginning of `entries` is new to `entries` or has
/// another type there.
proof fn lemma_none_added(entries: Seq<(Seq<char>, Seq<char>)>, count: int)
    requires
        names_distinct(entries),
        0 <= count <= entries.len(),
    ensures
        added_or_retyped_columns_of(entries, entries.take(count)).len() == 0,
    decreases count,
{
    if count > 0 {
        lemma_none_added(entries, count - 1);
        lemma_type_of_own(entries, count - 1);
        assert(entries.take(count).drop_last() =~= entries.take(count - 1));
    }
}

/// Columns do not change against themselves: comparing a set of columns
/// with itself finds nothing removed, added or retyped.
pub proof fn lemma_no_column_changes_to_self(entries: Seq<(Seq<char>, Seq<char>)>)
    requires
        names_distinct(entries),
    ensures
        column_changes_of(entries, entries) == Seq::<ColumnChangeView>::empty(),
{
    lemma_none_removed(entries, entries.len() as int);
    lemma_none_added(entries, entries.len() as int);
    assert(entries.take(entries.len() as int) =~= entries);
    assert(column_changes_of(entries, entries) =~= Seq::<ColumnChangeView>::empty());
}

} // verus!
