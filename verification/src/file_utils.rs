//! Local definition files: one file `<database>/<table>.sql` per table.
//!
//! Paths are texts whose components are separated by `/`. What the file
//! system holds at a path is told to the functions here by their caller.

use crate::text::{
    alphanumeric, append_str, chars_of, concat2, free_of, is_alphanumeric, lemma_seqs_of_push,
    lemma_split_append, lemma_split_free, opt_text, qualified_name, qualified_name_of, same_chars,
    seqs_of, slice_of, split, split_of, string_of,
};
use vstd::prelude::*;

verus! {

/// A local definition file: the table it defines, its path and its text.
#[derive(Debug, Clone, PartialEq)]
pub struct SqlFile {
    pub database_name: String,
    pub table_name: String,
    pub file_path: String,
    pub content: String,
}

/// Mathematical content of a [`SqlFile`].
pub ghost struct SqlFileView {
    pub database_name: Seq<char>,
    pub table_name: Seq<char>,
    pub file_path: Seq<char>,
    pub content: Seq<char>,
}

impl View for SqlFile {
    type V = SqlFileView;

    open spec fn view(&self) -> SqlFileView {
        SqlFileView {
            database_name: self.database_name@,
            table_name: self.table_name@,
            file_path: self.file_path@,
            content: self.content@,
        }
    }
}

impl SqlFile {
    /// The file of the given table, path and text.
    pub fn new(database_name: String, table_name: String, file_path: String, content: String) -> (f:
        Self)
        ensures
            f.database_name == database_name,
            f.table_name == table_name,
            f.file_path == file_path,
            f.content == content,
    {
        Self { database_name, table_name, file_path, content }
    }

    /// The text `<database>.<table>` of the table that the file defines.
    pub fn qualified_name(&self) -> (name: String)
        ensures
            name@ == qualified_name_of(self.database_name@, self.table_name@),
    {
        qualified_name(self.database_name.as_str(), self.table_name.as_str())
    }
}

/// What the file system holds at a path.
#[derive(Debug, Clone, Copy, PartialEq, Eq, Structural)]
pub enum PathKind {
    /// Nothing.
    Missing,
    /// A regular file.
    File,
    /// Something else, such as a directory.
    Other,
}

/// Why a path or a name is refused.
#[derive(Debug, Clone, PartialEq)]
pub enum FileError {
    /// A name is empty; the field says which kind of name.
    EmptyIdentifier(String),
    /// A name holds a character that is not allowed.
    InvalidIdentifier { kind: String, identifier: String },
    /// The path has no directory that could name the database.
    NoDatabaseName(String),
    /// The path has no file name that could name the table.
    NoTableName(String),
    /// There is nothing at the path.
    Missing(String),
    /// What is at the path is not a regular file.
    NotAFile(String),
    /// The file name does not end in `.sql`.
    NotSql(String),
    /// The file could not be read.
    Unreadable(String),
}

/// Mathematical content of a [`FileError`].
pub ghost enum FileErrorView {
    EmptyIdentifier(Seq<char>),
    InvalidIdentifier { kind: Seq<char>, identifier: Seq<char> },
    NoDatabaseName(Seq<char>),
    NoTableName(Seq<char>),
    Missing(Seq<char>),
    NotAFile(Seq<char>),
    NotSql(Seq<char>),
    Unreadable(Seq<char>),
}

impl View for FileError {
    type V = FileErrorView;

    open spec fn view(&self) -> FileErrorView {
        match self {
            FileError::EmptyIdentifier(kind) => FileErrorView::EmptyIdentifier(kind@),
            FileError::InvalidIdentifier { kind, identifier } => FileErrorView::InvalidIdentifier {
                kind: kind@,
                identifier: identifier@,
            },
            FileError::NoDatabaseName(path) => FileErrorView::NoDatabaseName(path@),
            FileError::NoTableName(path) => FileErrorView::NoTableName(path@),
            FileError::Missing(path) => FileErrorView::Missing(path@),
            FileError::NotAFile(path) => FileErrorView::NotAFile(path@),
            FileError::NotSql(path) => FileErrorView::NotSql(path@),
            FileError::Unreadable(path) => FileErrorView::Unreadable(path@),
        }
    }
}

impl FileErrorView {
    /// The message that describes the error.
    pub open spec fn message(self) -> Seq<char> {
        match self {
            FileErrorView::EmptyIdentifier(kind) => kind + " cannot be empty"@,
            FileErrorView::InvalidIdentifier { kind, identifier } => kind
                + " contains invalid characters: '"@ + identifier
                + "'. Only alphanumeric characters, underscores, and hyphens are allowed"@,
            FileErrorView::NoDatabaseName(path) => "Cannot extract database name from path: "@
                + path,
            FileErrorView::NoTableName(path) => "Cannot extract table name from path: "@ + path,
            FileErrorView::Missing(path) => "File does not exist: "@ + path,
            FileErrorView::NotAFile(path) => "Path is not a file: "@ + path,
            FileErrorView::NotSql(path) => "File does not have .sql extension: "@ + path,
            FileErrorView::Unreadable(path) => "Failed to read SQL file: "@ + path,
        }
    }
}

impl FileError {
    /// The message that describes the error.
    pub fn to_string(&self) -> (s: String)
        ensures
            s@ == self@.message(),
    {
        match self {
            FileError::EmptyIdentifier(kind) => concat2(kind.as_str(), " cannot be empty"),
            FileError::InvalidIdentifier { kind, identifier } => {
                let mut v = chars_of(kind.as_str());
                append_str(&mut v, " contains invalid characters: '");
                append_str(&mut v, identifier.as_str());
                append_str(
                    &mut v,
                    "'. Only alphanumeric characters, underscores, and hyphens are allowed",
                );
                string_of(&v)
            },
            FileError::NoDatabaseName(path) => concat2(
                "Cannot extract database name from path: ",
                path.as_str(),
            ),
            FileError::NoTableName(path) => concat2(
                "Cannot extract table name from path: ",
                path.as_str(),
            ),
            FileError::Missing(path) => concat2("File does not exist: ", path.as_str()),
            FileError::NotAFile(path) => concat2("Path is not a file: ", path.as_str()),
            FileError::NotSql(path) => concat2("File does not have .sql extension: ", path.as_str()),
            FileError::Unreadable(path) => concat2("Failed to read SQL file: ", path.as_str()),
        }
    }
}

/// Whether a character may stand in the name of a database or a table.
pub open spec fn is_identifier_char(c: char) -> bool {
    alphanumeric(c) || c == '_' || c == '-'
}

/// Whether every character of `s` may stand in a name.
pub open spec fn all_identifier_chars(s: Seq<char>) -> bool {
    forall|i: int| 0 <= i < s.len() ==> is_identifier_char(#[trigger] s[i])
}

/// The verdict on a name: it must not be empty and must consist of
/// alphanumeric characters, underscores and hyphens.
pub open spec fn identifier_fault(identifier: Seq<char>, kind: Seq<char>) -> Option<FileErrorView> {
    if identifier.len() == 0 {
        Some(FileErrorView::EmptyIdentifier(kind))
    } else if !all_identifier_chars(identifier) {
        Some(FileErrorView::InvalidIdentifier { kind, identifier })
    } else {
        None
    }
}

/// The components of `parts` that count in a path: the empty ones and the
/// ones that are a single dot do not.
pub open spec fn kept_components_of(parts: Seq<Seq<char>>) -> Seq<Seq<char>>
    decreases parts.len(),
{
    if parts.len() == 0 {
        Seq::<Seq<char>>::empty()
    } else {
        let init = kept_components_of(parts.drop_last());
        if parts.last().len() > 0 && parts.last() != seq!['.'] {
            init.push(parts.last())
        } else {
            init
        }
    }
}

/// The components of a path.
pub open spec fn components_of(path: Seq<char>) -> Seq<Seq<char>> {
    kept_components_of(split_of(path, '/'))
}

/// Whether a component names a file or a directory, and not the parent
/// directory.
pub open spec fn is_normal_component(component: Seq<char>) -> bool {
    component != seq!['.', '.']
}

/// The name of the file that a path leads to.
pub open spec fn file_name_of(path: Seq<char>) -> Option<Seq<char>> {
    let components = components_of(path);
    if components.len() >= 1 && is_normal_component(components.last()) {
        Some(components.last())
    } else {
        None
    }
}

/// The name of the directory in which the file of a path lies.
pub open spec fn parent_name_of(path: Seq<char>) -> Option<Seq<char>> {
    let components = components_of(path);
    if components.len() >= 2 && is_normal_component(components[components.len() - 2]) {
        Some(components[components.len() - 2])
    } else {
        None
    }
}

/// Position of the last dot in `name`, or -1 where there is none.
pub open spec fn last_dot_of(name: Seq<char>) -> int
    decreases name.len(),
{
    if name.len() == 0 {
        -1
    } else if name.last() == '.' {
        name.len() - 1
    } else {
        last_dot_of(name.drop_last())
    }
}

/// A file name without its extension. A dot at the very beginning does
/// not start an extension.
pub open spec fn stem_of(name: Seq<char>) -> Seq<char> {
    let dot = last_dot_of(name);
    if dot <= 0 {
        name
    } else {
        name.take(dot)
    }
}

/// The extension of a file name: what follows its last dot. A dot at the
/// very beginning does not start an extension.
pub open spec fn extension_of(name: Seq<char>) -> Option<Seq<char>> {
    let dot = last_dot_of(name);
    if dot <= 0 {
        None
    } else {
        Some(name.skip(dot + 1))
    }
}

/// Whether the file of a path has the extension `sql`.
pub open spec fn has_sql_extension(path: Seq<char>) -> bool {
    match file_name_of(path) {
        Some(name) => extension_of(name) == Some("sql"@),
        None => false,
    }
}

/// The names of the database and the table that a path stands for, or the
/// reason for which it stands for none.
pub open spec fn names_of_path(path: Seq<char>) -> Result<(Seq<char>, Seq<char>), FileErrorView> {
    match parent_name_of(path) {
        None => Err(FileErrorView::NoDatabaseName(path)),
        Some(database) => match file_name_of(path) {
            None => Err(FileErrorView::NoTableName(path)),
            Some(name) => match identifier_fault(database, "database name"@) {
                Some(fault) => Err(fault),
                None => match identifier_fault(stem_of(name), "table name"@) {
                    Some(fault) => Err(fault),
                    None => Ok((database, stem_of(name))),
                },
            },
        },
    }
}

/// The verdict on the path of a definition file, given what the file
/// system holds there.
pub open spec fn sql_path_fault(path: Seq<char>, kind: PathKind) -> Option<FileErrorView> {
    match kind {
        PathKind::Missing => Some(FileErrorView::Missing(path)),
        PathKind::Other => Some(FileErrorView::NotAFile(path)),
        PathKind::File => if has_sql_extension(path) {
            None
        } else {
            Some(FileErrorView::NotSql(path))
        },
    }
}

/// `base` followed by the component `name`, with a `/` between them where
/// `base` is not empty and does not end in one.
pub open spec fn joined_path_of(base: Seq<char>, name: Seq<char>) -> Seq<char> {
    if base.len() == 0 || base.last() == '/' {
        base + name
    } else {
        base + seq!['/'] + name
    }
}

/// The path of the definition file of a table below `base`.
pub open spec fn table_path_of(base: Seq<char>, database: Seq<char>, table: Seq<char>) -> Seq<
    char,
> {
    joined_path_of(joined_path_of(base, database), table + ".sql"@)
}

/// The view of a pair of strings.
pub open spec fn pair_text(p: (String, String)) -> (Seq<char>, Seq<char>) {
    (p.0@, p.1@)
}

/// The components of a path.
fn components(path: &Vec<char>) -> (kept: Vec<Vec<char>>)
    ensures
        seqs_of(kept@) == components_of(path@),
{
    let parts = split(path, '/');
    let ghost all = seqs_of(parts@);
    let mut kept: Vec<Vec<char>> = Vec::new();
    let mut i: usize = 0;
    while i < parts.len()
        invariant
            i <= parts.len(),
            all == seqs_of(parts@),
            seqs_of(kept@) == kept_components_of(all.take(i as int)),
        decreases parts.len() - i,
    {
        proof {
            assert(all.take(i + 1).drop_last() =~= all.take(i as int));
        }
        let part = &parts[i];
        let is_dot = part.len() == 1 && part[0] == '.';
        assert(is_dot == (part@ =~= seq!['.']));
        if part.len() > 0 && !is_dot {
            let copy = part.clone();
            proof {
                lemma_seqs_of_push(kept@, copy);
            }
            kept.push(copy);
        }
        i = i + 1;
    }
    assert(all.take(parts.len() as int) =~= all);
    kept
}

/// Whether a component names a file or a directory.
fn is_normal(component: &Vec<char>) -> (b: bool)
    ensures
        b == is_normal_component(component@),
{
    let parent = component.len() == 2 && component[0] == '.' && component[1] == '.';
    assert(parent == (component@ =~= seq!['.', '.']));
    !parent
}

/// Position of the last dot in `name`, if there is one.
fn last_dot(name: &Vec<char>) -> (dot: Option<usize>)
    ensures
        match dot {
            Some(at) => at == last_dot_of(name@) && at < name@.len(),
            None => last_dot_of(name@) == -1,
        },
{
    let mut end: usize = name.len();
    assert(name@.take(end as int) == name@);
    while end > 0 && name[end - 1] != '.'
        invariant
            end <= name.len(),
            last_dot_of(name@) == last_dot_of(name@.take(end as int)),
        decreases end,
    {
        assert(name@.take(end as int).drop_last() == name@.take(end - 1));
        end = end - 1;
    }
    if end > 0 {
        Some((end - 1) as usize)
    } else {
        None
    }
}

/// A file name without its extension.
fn stem(name: &Vec<char>) -> (r: Vec<char>)
    ensures
        r@ == stem_of(name@),
{
    match last_dot(name) {
        Some(dot) => {
            if dot == 0 {
                name.clone()
            } else {
                slice_of(name, 0, dot)
            }
        },
        None => name.clone(),
    }
}

/// Whether the file of a path has the extension `sql`.
fn path_has_sql_extension(path: &Vec<char>) -> (b: bool)
    ensures
        b == has_sql_extension(path@),
{
    let kept = components(path);
    if kept.len() == 0 || !is_normal(&kept[kept.len() - 1]) {
        return false;
    }
    let name = &kept[kept.len() - 1];
    match last_dot(name) {
        Some(dot) => {
            if dot == 0 {
                false
            } else {
                let extension = slice_of(name, dot + 1, name.len());
                same_chars(&extension, &chars_of("sql"))
            }
        },
        None => false,
    }
}

/// Operations on the paths and names of local definition files.
pub struct FileUtils;

impl FileUtils {
    /// Checks the name of a database or a table. `identifier_type` says
    /// which of the two it is, for the message.
    pub fn validate_identifier(identifier: &str, identifier_type: &str) -> (r: Result<
        (),
        FileError,
    >)
        ensures
            match r {
                Ok(()) => identifier_fault(identifier@, identifier_type@) is None,
                Err(e) => identifier_fault(identifier@, identifier_type@) == Some(e@),
            },
    {
        let chars = chars_of(identifier);
        if chars.len() == 0 {
            return Err(FileError::EmptyIdentifier(identifier_type.to_owned()));
        }
        let mut i: usize = 0;
        while i < chars.len()
            invariant
                i <= chars.len(),
                chars@ == identifier@,
                forall|j: int| 0 <= j < i ==> is_identifier_char(#[trigger] chars@[j]),
            decreases chars.len() - i,
        {
            let c = chars[i];
            if !(is_alphanumeric(c) || c == '_' || c == '-') {
                return Err(
                    FileError::InvalidIdentifier {
                        kind: identifier_type.to_owned(),
                        identifier: identifier.to_owned(),
                    },
                );
            }
            i = i + 1;
        }
        Ok(())
    }

    /// Reads the names of the database and the table off the path of a
    /// definition file: the directory of the file names the database, the
    /// file name without its extension names the table.
    pub fn extract_database_table_from_path(path: &str) -> (r: Result<(String, String), FileError>)
        ensures
            match r {
                Ok(names) => names_of_path(path@) == Ok::<_, FileErrorView>(pair_text(names)),
                Err(e) => names_of_path(path@) == Err::<(Seq<char>, Seq<char>), _>(e@),
            },
    {
        let kept = components(&chars_of(path));
        if kept.len() < 2 || !is_normal(&kept[kept.len() - 2]) {
            return Err(FileError::NoDatabaseName(path.to_owned()));
        }
        if !is_normal(&kept[kept.len() - 1]) {
            return Err(FileError::NoTableName(path.to_owned()));
        }
        let database_name = string_of(&kept[kept.len() - 2]);
        let table_name = string_of(&stem(&kept[kept.len() - 1]));
        match Self::validate_identifier(database_name.as_str(), "database name") {
            Err(e) => {
                return Err(e);
            },
            Ok(()) => {},
        }
        match Self::validate_identifier(table_name.as_str(), "table name") {
            Err(e) => {
                return Err(e);
            },
            Ok(()) => {},
        }
        Ok((database_name, table_name))
    }

    /// Checks the path of a definition file: there must be a regular file
    /// at the path, and its name must end in `.sql`.
    pub fn validate_sql_file_path(path: &str, kind: PathKind) -> (r: Result<(), FileError>)
        ensures
            match r {
                Ok(()) => sql_path_fault(path@, kind) is None,
                Err(e) => sql_path_fault(path@, kind) == Some(e@),
            },
    {
        match kind {
            PathKind::Missing => Err(FileError::Missing(path.to_owned())),
            PathKind::Other => Err(FileError::NotAFile(path.to_owned())),
            PathKind::File => {
                if path_has_sql_extension(&chars_of(path)) {
                    Ok(())
                } else {
                    Err(FileError::NotSql(path.to_owned()))
                }
            },
        }
    }

    /// The path of the definition file of a table below `base_path`.
    pub fn get_table_file_path(
        base_path: &str,
        database_name: &str,
        table_name: &str,
    ) -> (r: Result<
        String,
        FileError,
    >)
        ensures
            match r {
                Ok(path) => {
                    &&& identifier_fault(database_name@, "database name"@) is None
                    &&& identifier_fault(table_name@, "table name"@) is None
                    &&& path@ == table_path_of(base_path@, database_name@, table_name@)
                },
                Err(e) => match identifier_fault(database_name@, "database name"@) {
                    Some(fault) => e@ == fault,
                    None => identifier_fault(table_name@, "table name"@) == Some(e@),
                },
            },
    {
        match Self::validate_identifier(database_name, "database name") {
            Err(e) => {
                return Err(e);
            },
            Ok(()) => {},
        }
        match Self::validate_identifier(table_name, "table name") {
            Err(e) => {
                return Err(e);
            },
            Ok(()) => {},
        }
        let mut path = chars_of(base_path);
        if path.len() > 0 && path[path.len() - 1] != '/' {
            path.push('/');
        }
        append_str(&mut path, database_name);
        if path.len() > 0 && path[path.len() - 1] != '/' {
            path.push('/');
        }
        append_str(&mut path, table_name);
        append_str(&mut path, ".sql");
        Ok(string_of(&path))
    }

    /// Builds the definition file of a path from what the file system
    /// holds there: `content` is the text of the file, or `None` where it
    /// could not be read.
    pub fn parse_sql_file(path: &str, kind: PathKind, content: Option<String>) -> (r: Result<
        SqlFile,
        FileError,
    >)
        ensures
            match r {
                Ok(file) => sql_file_of(path@, kind, opt_text(content)) == Ok::<_, FileErrorView>(
                    file@,
                ),
                Err(e) => sql_file_of(path@, kind, opt_text(content)) == Err::<SqlFileView, _>(e@),
            },
    {
        match Self::validate_sql_file_path(path, kind) {
            Err(e) => {
                return Err(e);
            },
            Ok(()) => {},
        }
        let (database_name, table_name) = match Self::extract_database_table_from_path(path) {
            Err(e) => {
                return Err(e);
            },
            Ok(names) => names,
        };
        match content {
            Some(text) => Ok(SqlFile::new(database_name, table_name, path.to_owned(), text)),
            None => Err(FileError::Unreadable(path.to_owned())),
        }
    }

    /// Goes through what was found below the base directory and builds the
    /// definition files: what is no regular file, or has no name that ends
    /// in `.sql`, is passed over; a file that cannot stand for a table is
    /// listed as rejected, with the reason, and the others go on.
    pub fn collect_sql_files(found: &Vec<FoundFile>) -> (scan: SqlFileScan)
        ensures
            sql_file_views(scan.files@) == accepted_files_of(found@, found@.len() as int),
            rejection_views(scan.rejected@) == rejected_files_of(found@, found@.len() as int),
    {
        let mut files: Vec<SqlFile> = Vec::new();
        let mut rejected: Vec<(String, FileError)> = Vec::new();
        let mut i: usize = 0;
        while i < found.len()
            invariant
                i <= found.len(),
                sql_file_views(files@) == accepted_files_of(found@, i as int),
                rejection_views(rejected@) == rejected_files_of(found@, i as int),
            decreases found.len() - i,
        {
            let entry = &found[i];
            let candidate = match entry.kind {
                PathKind::File => path_has_sql_extension(&chars_of(entry.path.as_str())),
                _ => false,
            };
            if candidate {
                match Self::parse_sql_file(entry.path.as_str(), entry.kind, entry.content.clone()) {
                    Ok(file) => {
                        files.push(file);
                    },
                    Err(e) => {
                        let rejection = (entry.path.clone(), e);
                        rejected.push(rejection);
                    },
                }
            }
            i = i + 1;
        }
        SqlFileScan { files, rejected }
    }
}

/// The definition file that a path stands for, given what the file system
/// holds there, or the reason for which it stands for none.
pub open spec fn sql_file_of(path: Seq<char>, kind: PathKind, content: Option<Seq<char>>) -> Result<
    SqlFileView,
    FileErrorView,
> {
    match sql_path_fault(path, kind) {
        Some(fault) => Err(fault),
        None => match names_of_path(path) {
            Err(fault) => Err(fault),
            Ok((database_name, table_name)) => match content {
                Some(text) => Ok(
                    SqlFileView { database_name, table_name, file_path: path, content: text },
                ),
                None => Err(FileErrorView::Unreadable(path)),
            },
        },
    }
}

/// What was found at one path below the base directory.
#[derive(Debug, Clone, PartialEq)]
pub struct FoundFile {
    pub path: String,
    pub kind: PathKind,
    /// The text of the file, where there is a file and it could be read.
    pub content: Option<String>,
}

/// The definition files found below a base directory, and the files that
/// were rejected.
#[derive(Debug, Clone, PartialEq)]
pub struct SqlFileScan {
    pub files: Vec<SqlFile>,
    /// The paths of the rejected files, each with the reason.
    pub rejected: Vec<(String, FileError)>,
}

/// The views of a sequence of definition files.
pub open spec fn sql_file_views(files: Seq<SqlFile>) -> Seq<SqlFileView> {
    files.map_values(|f: SqlFile| f@)
}

/// The views of a sequence of rejections.
pub open spec fn rejection_views(rejected: Seq<(String, FileError)>) -> Seq<
    (Seq<char>, FileErrorView),
> {
    rejected.map_values(|r: (String, FileError)| (r.0@, r.1@))
}

/// Whether what was found is looked at as a definition file: a regular
/// file whose name ends in `.sql`.
pub open spec fn is_candidate(f: FoundFile) -> bool {
    f.kind == PathKind::File && has_sql_extension(f.path@)
}

/// The definition files among the first `count` entries of `found`.
pub open spec fn accepted_files_of(found: Seq<FoundFile>, count: int) -> Seq<SqlFileView>
    decreases count,
{
    if count <= 0 {
        Seq::<SqlFileView>::empty()
    } else {
        let init = accepted_files_of(found, count - 1);
        let f = found[count - 1];
        if is_candidate(f) {
            match sql_file_of(f.path@, f.kind, opt_text(f.content)) {
                Ok(file) => init.push(file),
                Err(_) => init,
            }
        } else {
            init
        }
    }
}

/// The rejected files among the first `count` entries of `found`.
pub open spec fn rejected_files_of(found: Seq<FoundFile>, count: int) -> Seq<
    (Seq<char>, FileErrorView),
>
    decreases count,
{
    if count <= 0 {
        Seq::<(Seq<char>, FileErrorView)>::empty()
    } else {
        let init = rejected_files_of(found, count - 1);
        let f = found[count - 1];
        if is_candidate(f) {
            match sql_file_of(f.path@, f.kind, opt_text(f.content)) {
                Ok(_) => init,
                Err(fault) => init.push((f.path@, fault)),
            }
        } else {
            init
        }
    }
}

/// The last dot of a text that ends in a dot and a part without dots is
/// that dot.
proof fn lemma_last_dot(stem: Seq<char>, extension: Seq<char>)
    requires
        free_of(extension, '.'),
    ensures
        last_dot_of(stem + seq!['.'] + extension) == stem.len(),
    decreases extension.len(),
{
    let name = stem + seq!['.'] + extension;
    if extension.len() > 0 {
        lemma_last_dot(stem, extension.drop_last());
        assert(name.drop_last() =~= stem + seq!['.'] + extension.drop_last());
    }
}

/// The components of a path that ends in two more pieces are its
/// components before, and the two pieces, where these count.
proof fn lemma_components_end(parts: Seq<Seq<char>>, a: Seq<char>, b: Seq<char>)
    requires
        a.len() > 0,
        a != seq!['.'],
        b.len() > 0,
        b != seq!['.'],
    ensures
        kept_components_of(parts.push(a).push(b)) == kept_components_of(parts).push(a).push(b),
{
    let one = parts.push(a);
    let two = one.push(b);
    assert(one.drop_last() =~= parts);
    assert(kept_components_of(one) == kept_components_of(parts).push(a));
    assert(two.drop_last() =~= one);
}

/// The path of the definition file of a table leads back to the table:
/// where the names of the database and the table are valid, and hold
/// neither a slash nor a dot, the path that `get_table_file_path` builds is
/// read by `extract_database_table_from_path` as these two names, and its
/// file has the extension `sql`.
pub proof fn lemma_table_path_names(base: Seq<char>, database: Seq<char>, table: Seq<char>)
    requires
        identifier_fault(database, "database name"@) is None,
        identifier_fault(table, "table name"@) is None,
        free_of(database, '/'),
        free_of(database, '.'),
        free_of(table, '/'),
        free_of(table, '.'),
    ensures
        names_of_path(table_path_of(base, database, table)) == Ok::<_, FileErrorView>(
            (database, table),
        ),
        has_sql_extension(table_path_of(base, database, table)),
{
    reveal_strlit(".sql");
    reveal_strlit("sql");
    let extension = "sql"@;
    let file = table + ".sql"@;
    assert(file =~= table + seq!['.'] + extension);
    assert(free_of(extension, '.'));
    assert(free_of(file, '/'));
    let directory = joined_path_of(base, database);
    let path = table_path_of(base, database, table);
    assert(directory.last() == database.last());
    assert(path =~= directory + seq!['/'] + file);
    lemma_split_append(directory, file, '/');
    // The pieces of the directory end with the name of the database.
    let before = if base.len() == 0 {
        Seq::<Seq<char>>::empty()
    } else if base.last() == '/' {
        split_of(base.drop_last(), '/')
    } else {
        split_of(base, '/')
    };
    assert(split_of(directory, '/') == before.push(database)) by {
        if base.len() == 0 {
            assert(directory =~= database);
            lemma_split_free(database, '/');
            assert(before.push(database) =~= seq![database]);
        } else if base.last() == '/' {
            assert(directory =~= base.drop_last() + seq!['/'] + database);
            lemma_split_append(base.drop_last(), database, '/');
        } else {
            lemma_split_append(base, database, '/');
        }
    }
    assert(database != seq!['.']) by {
        if database.len() == 1 {
            assert(database[0] != '.');
        }
    }
    assert(database != seq!['.', '.']) by {
        assert(database[0] != '.');
    }
    lemma_components_end(before, database, file);
    let components = components_of(path);
    assert(components == kept_components_of(before).push(database).push(file));
    assert(components.last() == file);
    assert(components[components.len() - 2] == database);
    lemma_last_dot(table, extension);
    assert(file.take(table.len() as int) =~= table);
    assert(file.skip(table.len() as int + 1) =~= extension);
}

} // verus!
