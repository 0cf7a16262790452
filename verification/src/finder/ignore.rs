//! Ignore rules: plain substrings, `glob:` patterns and `regex:` patterns.

use crate::text::{contains_text, occurs_in, strip_prefix, texts};
use vstd::prelude::*;
use vstd::string::*;

verus! {

/// Whether the regular expression `pattern` matches somewhere in `text`;
/// `None` where the pattern is not a valid expression.
pub uninterp spec fn regex_verdict(pattern: Seq<char>, text: Seq<char>) -> Option<bool>;

/// Whether the glob `pattern` matches the whole of `text`; `None` where the
/// pattern is not a valid glob.
pub uninterp spec fn glob_verdict(pattern: Seq<char>, text: Seq<char>) -> Option<bool>;

/// Calls `regex::Regex::new` on the pattern and, where that compiles,
/// `Regex::is_match` on the text. The claim: the outcome depends on the two
/// texts alone; nothing is said about which texts a pattern matches.
#[verifier::external_body]
pub(crate) fn regex_is_match(pattern: &str, text: &str) -> (r: Option<bool>)
    ensures
        r == regex_verdict(pattern@, text@),
{
    match regex::Regex::new(pattern) {
        Ok(re) => Some(re.is_match(text)),
        Err(_) => None,
    }
}

/// Calls `glob::Pattern::new` on the pattern and, where that compiles,
/// `Pattern::matches` on the text. The claim: the outcome depends on the two
/// texts alone; nothing is said about which texts a pattern matches.
#[verifier::external_body]
pub(crate) fn glob_matches(pattern: &str, text: &str) -> (r: Option<bool>)
    ensures
        r == glob_verdict(pattern@, text@),
{
    match glob::Pattern::new(pattern) {
        Ok(p) => Some(p.matches(text)),
        Err(_) => None,
    }
}

/// A pattern engine's verdict excludes a path only when the pattern is valid
/// and matches: a malformed pattern never matches.
pub open spec fn verdict_excludes(verdict: Option<bool>) -> bool {
    verdict == Some(true)
}

/// Whether a pattern engine's verdict excludes the path.
pub fn excluded_by(verdict: Option<bool>) -> (r: bool)
    ensures
        r == verdict_excludes(verdict),
{
    match verdict {
        Some(hit) => hit,
        None => false,
    }
}

/// Whether one ignore rule excludes a path. A rule that starts with `regex:`
/// is a regular expression, one that starts with `glob:` is a glob, and any
/// other excludes the paths it occurs in.
pub open spec fn rule_excludes(rule: Seq<char>, path: Seq<char>) -> bool {
    if "regex:"@.is_prefix_of(rule) {
        verdict_excludes(regex_verdict(rule.skip(6), path))
    } else if "glob:"@.is_prefix_of(rule) {
        verdict_excludes(glob_verdict(rule.skip(5), path))
    } else {
        occurs_in(rule, path)
    }
}

/// Whether any of the rules excludes the path.
pub open spec fn is_ignored(rules: Seq<Seq<char>>, path: Seq<char>) -> bool {
    exists|i: int| 0 <= i < rules.len() && rule_excludes(#[trigger] rules[i], path)
}

/// Whether the rule excludes the path.
pub fn rule_matches(rule: &str, path: &str) -> (r: bool)
    ensures
        r == rule_excludes(rule@, path@),
{
    proof {
        reveal_strlit("regex:");
        reveal_strlit("glob:");
    }
    match strip_prefix(rule, "regex:") {
        Some(expr) => {
            assert(expr@ =~= rule@.skip(6));
            assert("regex:"@.is_prefix_of(rule@));
            excluded_by(regex_is_match(expr, path))
        },
        None => match strip_prefix(rule, "glob:") {
            Some(glob) => {
                assert(glob@ =~= rule@.skip(5));
                assert("glob:"@.is_prefix_of(rule@));
                excluded_by(glob_matches(glob, path))
            },
            None => contains_text(path, rule),
        },
    }
}

/// Whether any rule, tried in order, excludes the path.
pub fn any_rule_matches(rules: &Vec<String>, path: &str) -> (r: bool)
    ensures
        r == is_ignored(texts(rules@), path@),
{
    let mut i: usize = 0;
    while i < rules.len()
        invariant
            i <= rules.len(),
            forall|k: int| 0 <= k < i ==> !rule_excludes(#[trigger] texts(rules@)[k], path@),
        decreases rules.len() - i,
    {
        if rule_matches(rules[i].as_str(), path) {
            assert(rule_excludes(texts(rules@)[i as int], path@));
            return true;
        }
        i += 1;
    }
    false
}

} // verus!
