//! Selection of tables by patterns of the form `<database>.<table>`, in
//! which `*` stands for any text.
//!
//! - `salesdb.customers` selects one table;
//! - `salesdb.*` selects all tables of `salesdb`;
//! - `*.customers` selects the tables named `customers` of all databases.

use crate::patterns::{escape, escaped_of, is_match, regex_match_of};
use crate::text::{
    append, chars_of, lemma_texts_of_push, pair_views, same_chars, split, split_of, string_of,
    texts_of,
};
use vstd::prelude::*;

verus! {

/// The two segments of a target, where it has exactly two.
pub open spec fn segments_of(target: Seq<char>) -> Option<(Seq<char>, Seq<char>)> {
    let parts = split_of(target, '.');
    if parts.len() == 2 {
        Some((parts[0], parts[1]))
    } else {
        None
    }
}

/// The patterns that a list of targets gives: the segments of every target
/// that has exactly two. The other targets are left out.
pub open spec fn patterns_of(targets: Seq<Seq<char>>) -> Seq<(Seq<char>, Seq<char>)>
    decreases targets.len(),
{
    if targets.len() == 0 {
        Seq::<(Seq<char>, Seq<char>)>::empty()
    } else {
        let init = patterns_of(targets.drop_last());
        match segments_of(targets.last()) {
            Some(pattern) => init.push(pattern),
            None => init,
        }
    }
}

/// `s` with every escaped star `\*` replaced by `.*`, from left to right.
pub open spec fn star_to_any_of(s: Seq<char>) -> Seq<char>
    decreases s.len(),
{
    if s.len() == 0 {
        Seq::<char>::empty()
    } else if s.len() >= 2 && s[0] == '\\' && s[1] == '*' {
        seq!['.', '*'] + star_to_any_of(s.skip(2))
    } else {
        seq![s[0]] + star_to_any_of(s.skip(1))
    }
}

/// The regular expression that stands for a segment pattern: the pattern
/// taken literally, but for its stars, and anchored at both ends. A star
/// stands for any characters, line breaks among them.
pub open spec fn pattern_regex_of(pattern: Seq<char>) -> Seq<char> {
    "(?s)^"@ + star_to_any_of(escaped_of(pattern)) + seq!['$']
}

/// Whether `value` matches a segment pattern, given the outcome of matching
/// it against the regular expression of the pattern: the pattern `*` matches
/// everything; where the regular expression was refused, only the pattern
/// itself matches.
pub open spec fn verdict_of(value: Seq<char>, pattern: Seq<char>, outcome: Option<bool>) -> bool {
    pattern == seq!['*'] || match outcome {
        Some(found) => found,
        None => value == pattern,
    }
}

/// Whether `value` matches the segment pattern `pattern`.
pub open spec fn pattern_matches(value: Seq<char>, pattern: Seq<char>) -> bool {
    verdict_of(value, pattern, regex_match_of(pattern_regex_of(pattern), value))
}

/// Whether one of `patterns` matches the table `table` of `database`.
pub open spec fn any_pattern_matches(
    patterns: Seq<(Seq<char>, Seq<char>)>,
    database: Seq<char>,
    table: Seq<char>,
) -> bool {
    exists|i: int|
        0 <= i < patterns.len() && pattern_matches(database, (#[trigger] patterns[i]).0)
            && pattern_matches(table, patterns[i].1)
}

/// Whether the targets select the table `table` of `database`. Only the
/// targets of exactly two segments count. Where there is none of them,
/// every table is selected; otherwise a table is selected by a target whose
/// two patterns match its two names.
pub open spec fn selects(targets: Seq<Seq<char>>, database: Seq<char>, table: Seq<char>) -> bool {
    patterns_of(targets).len() == 0 || any_pattern_matches(patterns_of(targets), database, table)
}

/// The targets in force: those of the command line where there are any,
/// else one target `<database>.*` for every configured database, else none.
pub open spec fn resolved_targets_of(
    cli_targets: Seq<Seq<char>>,
    config_databases: Option<Seq<Seq<char>>>,
) -> Seq<Seq<char>> {
    if cli_targets.len() > 0 {
        cli_targets
    } else {
        match config_databases {
            Some(databases) => databases.map_values(|d: Seq<char>| d + seq!['.', '*']),
            None => Seq::<Seq<char>>::empty(),
        }
    }
}

/// Chooses the targets in force from those of the command line and the
/// databases of the configuration.
pub fn resolve_targets(cli_targets: &[String], config_databases: Option<&Vec<String>>) -> (targets:
    Vec<String>)
    ensures
        texts_of(targets@) == resolved_targets_of(
            texts_of(cli_targets@),
            match config_databases {
                Some(databases) => Some(texts_of(databases@)),
                None => None,
            },
        ),
{
    let mut targets: Vec<String> = Vec::new();
    if cli_targets.len() > 0 {
        let mut i: usize = 0;
        while i < cli_targets.len()
            invariant
                i <= cli_targets.len(),
                texts_of(targets@) =~= texts_of(cli_targets@).take(i as int),
            decreases cli_targets.len() - i,
        {
            let target = cli_targets[i].clone();
            proof {
                lemma_texts_of_push(targets@, target);
            }
            targets.push(target);
            i = i + 1;
        }
        targets
    } else {
        match config_databases {
            Some(databases) => {
                let ghost goal = texts_of(databases@).map_values(
                    |d: Seq<char>| d + seq!['.', '*'],
                );
                let mut i: usize = 0;
                while i < databases.len()
                    invariant
                        i <= databases.len(),
                        goal == texts_of(databases@).map_values(|d: Seq<char>| d + seq!['.', '*']),
                        texts_of(targets@) =~= goal.take(i as int),
                    decreases databases.len() - i,
                {
                    let mut target = chars_of(databases[i].as_str());
                    target.push('.');
                    target.push('*');
                    assert(target@ =~= databases@[i as int]@ + seq!['.', '*']);
                    let text = string_of(&target);
                    proof {
                        lemma_texts_of_push(targets@, text);
                    }
                    targets.push(text);
                    i = i + 1;
                }
                targets
            },
            None => {
                targets
            },
        }
    }
}

/// `escaped` with every escaped star replaced by `.*`.
fn star_to_any(escaped: &Vec<char>) -> (r: Vec<char>)
    ensures
        r@ == star_to_any_of(escaped@),
{
    let mut r: Vec<char> = Vec::new();
    let mut i: usize = 0;
    assert(escaped@.skip(0) == escaped@);
    while i < escaped.len()
        invariant
            i <= escaped.len(),
            r@ + star_to_any_of(escaped@.skip(i as int)) == star_to_any_of(escaped@),
        decreases escaped.len() - i,
    {
        let ghost rest = escaped@.skip(i as int);
        if escaped[i] == '\\' && i + 1 < escaped.len() && escaped[i + 1] == '*' {
            proof {
                assert(rest.skip(2) == escaped@.skip(i + 2));
            }
            r.push('.');
            r.push('*');
            i = i + 2;
        } else {
            proof {
                assert(rest.skip(1) == escaped@.skip(i + 1));
            }
            r.push(escaped[i]);
            i = i + 1;
        }
    }
    r
}

/// The regular expression that stands for a segment pattern.
pub fn pattern_regex(pattern: &str) -> (regex: String)
    ensures
        regex@ == pattern_regex_of(pattern@),
{
    let escaped = chars_of(escape(pattern).as_str());
    let mut regex = chars_of("(?s)^");
    append(&mut regex, &star_to_any(&escaped));
    regex.push('$');
    string_of(&regex)
}

/// Whether a segment pattern is the single star.
fn is_star(pattern: &Vec<char>) -> (b: bool)
    ensures
        b == (pattern@ == seq!['*']),
{
    if pattern.len() == 1 && pattern[0] == '*' {
        assert(pattern@ =~= seq!['*']);
        true
    } else {
        false
    }
}

/// Decides whether `value` matches the segment pattern `pattern`, given the
/// outcome of matching `value` against the regular expression of the
/// pattern (`None` where the regular expression was refused).
pub fn decide_match(value: &str, pattern: &str, outcome: Option<bool>) -> (matches: bool)
    ensures
        matches == verdict_of(value@, pattern@, outcome),
{
    let pattern_chars = chars_of(pattern);
    if is_star(&pattern_chars) {
        return true;
    }
    match outcome {
        Some(found) => found,
        None => same_chars(&chars_of(value), &pattern_chars),
    }
}

/// Whether `value` matches the segment pattern `pattern`: `*` in the
/// pattern stands for any text, every other character for itself.
pub fn matches_pattern(value: &str, pattern: &str) -> (matches: bool)
    ensures
        matches == pattern_matches(value@, pattern@),
{
    if is_star(&chars_of(pattern)) {
        return true;
    }
    let regex = pattern_regex(pattern);
    decide_match(value, pattern, is_match(regex.as_str(), value))
}

/// A compiled selection of tables: the pairs of a database pattern and a
/// table pattern of which one has to match. Without any pair every table
/// is selected.
#[derive(Debug, Clone, PartialEq)]
pub struct TargetFilter {
    pub patterns: Vec<(String, String)>,
}

impl TargetFilter {
    /// Whether the filter selects every table: it does where it holds no
    /// pattern.
    pub open spec fn selects_all(self) -> bool {
        self.patterns@.len() == 0
    }

    /// Whether the filter selects the table `table` of `database`.
    pub open spec fn accepts(self, database: Seq<char>, table: Seq<char>) -> bool {
        self.selects_all() || any_pattern_matches(pair_views(self.patterns@), database, table)
    }

    /// Whether the filter selects every table.
    pub fn match_all(&self) -> (all: bool)
        ensures
            all == self.selects_all(),
    {
        self.patterns.len() == 0
    }

    /// Whether the filter selects the table `table` of `database`.
    pub fn matches(&self, database: &str, table: &str) -> (selected: bool)
        ensures
            selected == self.accepts(database@, table@),
    {
        if self.patterns.len() == 0 {
            return true;
        }
        let ghost patterns = pair_views(self.patterns@);
        let mut i: usize = 0;
        while i < self.patterns.len()
            invariant
                i <= self.patterns.len(),
                patterns == pair_views(self.patterns@),
                forall|j: int|
                    0 <= j < i ==> !(pattern_matches(database@, (#[trigger] patterns[j]).0)
                        && pattern_matches(table@, patterns[j].1)),
            decreases self.patterns.len() - i,
        {
            if matches_pattern(database, self.patterns[i].0.as_str()) && matches_pattern(
                table,
                self.patterns[i].1.as_str(),
            ) {
                assert(pattern_matches(database@, patterns[i as int].0) && pattern_matches(
                    table@,
                    patterns[i as int].1,
                ));
                return true;
            }
            i = i + 1;
        }
        false
    }
}

/// Compiles a list of targets into a filter. A target that does not have
/// exactly two segments is left out. Where no target is left, be it that
/// there was none or that none was valid, the filter selects every table.
pub fn parse_target_filter(targets: &[String]) -> (filter: TargetFilter)
    ensures
        pair_views(filter.patterns@) == patterns_of(texts_of(targets@)),
        filter.selects_all() == (patterns_of(texts_of(targets@)).len() == 0),
        forall|database: Seq<char>, table: Seq<char>|
            filter.accepts(database, table) == selects(texts_of(targets@), database, table),
        patterns_of(texts_of(targets@)).len() == 0 ==> forall|
            database: Seq<char>,
            table: Seq<char>,
        | filter.accepts(database, table),
{
    let mut patterns: Vec<(String, String)> = Vec::new();
    let ghost all = texts_of(targets@);
    let mut i: usize = 0;
    while i < targets.len()
        invariant
            i <= targets.len(),
            all == texts_of(targets@),
            pair_views(patterns@) == patterns_of(all.take(i as int)),
        decreases targets.len() - i,
    {
        proof {
            assert(all.take(i + 1).drop_last() =~= all.take(i as int));
        }
        let parts = split(&chars_of(targets[i].as_str()), '.');
        if parts.len() == 2 {
            let pattern = (string_of(&parts[0]), string_of(&parts[1]));
            patterns.push(pattern);
        }
        i = i + 1;
    }
    assert(all.take(targets.len() as int) =~= all);
    TargetFilter { patterns }
}

/// Without targets every table is selected.
pub proof fn lemma_no_target_selects_all(database: Seq<char>, table: Seq<char>)
    ensures
        selects(Seq::<Seq<char>>::empty(), database, table),
{
}

/// Targets of which none has exactly two segments select every table, as
/// no target at all does.
pub proof fn lemma_no_valid_target_selects_all(
    targets: Seq<Seq<char>>,
    database: Seq<char>,
    table: Seq<char>,
)
    requires
        forall|i: int| 0 <= i < targets.len() ==> segments_of(#[trigger] targets[i]) is None,
    ensures
        patterns_of(targets).len() == 0,
        selects(targets, database, table),
    decreases targets.len(),
{
    if targets.len() > 0 {
        lemma_no_valid_target_selects_all(targets.drop_last(), database, table);
    }
}

/// The single target `*.*` selects every table, as no target at all does.
pub proof fn lemma_star_star_selects_all(database: Seq<char>, table: Seq<char>)
    ensures
        selects(seq!["*.*"@], database, table),
        selects(seq!["*.*"@], database, table) == selects(
            Seq::<Seq<char>>::empty(),
            database,
            table,
        ),
{
    reveal_strlit("*.*");
    let target = "*.*"@;
    let star = seq!['*'];
    let one = target.drop_last();
    let two = one.drop_last();
    let none = two.drop_last();
    assert(split_of(none, '.') =~= seq![Seq::<char>::empty()]);
    assert(split_of(two, '.') =~= seq![star]);
    assert(split_of(one, '.') =~= seq![star, Seq::<char>::empty()]);
    let targets = seq![target];
    assert(patterns_of(targets.drop_last()) =~= Seq::<(Seq<char>, Seq<char>)>::empty());
    let patterns = patterns_of(targets);
    assert(pattern_matches(database, patterns[0].0) && pattern_matches(table, patterns[0].1));
}

} // verus!
