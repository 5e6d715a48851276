//! The calls into the `regex` crate, each behind a contract.
//!
//! What a regular expression matches is not restated here: the results of
//! matching are named, and the callers state their contracts over the names.

use crate::text::opt_text;
use vstd::prelude::*;

verus! {

/// The characters that `regex::escape` puts a backslash in front of.
pub open spec fn is_meta_character(c: char) -> bool {
    ||| c == '\\'
    ||| c == '.'
    ||| c == '+'
    ||| c == '*'
    ||| c == '?'
    ||| c == '('
    ||| c == ')'
    ||| c == '|'
    ||| c == '['
    ||| c == ']'
    ||| c == '{'
    ||| c == '}'
    ||| c == '^'
    ||| c == '$'
    ||| c == '#'
    ||| c == '&'
    ||| c == '-'
    ||| c == '~'
}

/// `s` with a backslash in front of each meta character.
pub open spec fn escaped_of(s: Seq<char>) -> Seq<char>
    decreases s.len(),
{
    if s.len() == 0 {
        Seq::<char>::empty()
    } else if is_meta_character(s.last()) {
        escaped_of(s.drop_last()).push('\\').push(s.last())
    } else {
        escaped_of(s.drop_last()).push(s.last())
    }
}

/// `regex::escape`: the text is copied character by character, with a
/// backslash put in front of each of the crate's meta characters.
#[verifier::external_body]
pub(crate) fn escape(text: &str) -> (escaped: String)
    ensures
        escaped@ == escaped_of(text@),
{
    regex::escape(text)
}

/// Whether the regular expression `pattern` matches somewhere in `haystack`:
/// `None` where the `regex` crate refuses to compile `pattern`.
pub uninterp spec fn regex_match_of(pattern: Seq<char>, haystack: Seq<char>) -> Option<bool>;

/// `regex::Regex::new` followed by `Regex::is_match`. The outcome is only
/// named; it is `None` where the pattern does not compile.
#[verifier::external_body]
pub(crate) fn is_match(pattern: &str, haystack: &str) -> (found: Option<bool>)
    ensures
        found == regex_match_of(pattern@, haystack@),
{
    regex::Regex::new(pattern).ok().map(|re| re.is_match(haystack))
}

/// The text that capture group `group` of the regular expression `pattern`
/// holds in the leftmost match in `haystack`: `None` where the pattern does
/// not compile, where nothing matches, or where the group took no part in the
/// match.
pub uninterp spec fn regex_capture_of(pattern: Seq<char>, haystack: Seq<char>, group: nat) -> Option<Seq<char>>;

/// `regex::Regex::new` followed by `Regex::captures` and `Captures::get`.
/// The outcome is only named.
#[verifier::external_body]
pub(crate) fn capture(pattern: &str, haystack: &str, group: usize) -> (found: Option<String>)
    ensures
        opt_text(found) == regex_capture_of(pattern@, haystack@, group as nat),
{
    let captures = regex::Regex::new(pattern).ok().and_then(|re| re.captures(haystack));
    captures.and_then(|c| c.get(group)).map(|m| m.as_str().to_string())
}

} // verus!
