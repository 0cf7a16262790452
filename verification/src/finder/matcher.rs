//! Fuzzy scoring of one entry against a query.

use crate::finder::entry::{EntryView, FileEntry, MatchResult, MatchView};
use fuzzy_matcher::skim::SkimMatcherV2;
use fuzzy_matcher::FuzzyMatcher;
use vstd::prelude::*;
use vstd::string::*;

verus! {

/// A character with ASCII capitals turned into small letters.
pub open spec fn fold_ascii(c: char) -> int {
    if 'A' <= c && c <= 'Z' {
        c as int + 32
    } else {
        c as int
    }
}

/// Whether the characters of `pattern` stand at the rising positions `at` of
/// `choice`, ASCII case aside.
pub open spec fn embeds_at(pattern: Seq<char>, choice: Seq<char>, at: Seq<int>) -> bool {
    &&& at.len() == pattern.len()
    &&& forall|i: int|
        0 <= i < at.len() ==> 0 <= #[trigger] at[i] < choice.len() && fold_ascii(choice[at[i]])
            == fold_ascii(pattern[i])
    &&& forall|i: int, j: int| 0 <= i < j < at.len() ==> #[trigger] at[i] < #[trigger] at[j]
}

/// Whether `pattern` can be read off `choice` from left to right, skipping
/// characters and ignoring ASCII case.
pub open spec fn is_subsequence(pattern: Seq<char>, choice: Seq<char>) -> bool {
    exists|at: Seq<int>| embeds_at(pattern, choice, at)
}

/// The score the skim matcher (version 2, default scoring, case ignored)
/// gives `choice` for `pattern`, if it matches.
pub uninterp spec fn skim_score(choice: Seq<char>, pattern: Seq<char>) -> Option<i64>;

/// The score and the matched character positions the same matcher reports
/// when asked for positions.
pub uninterp spec fn skim_indices(choice: Seq<char>, pattern: Seq<char>) -> Option<(i64, Seq<usize>)>;

/// Calls `SkimMatcherV2::fuzzy_match` on a matcher built by
/// `SkimMatcherV2::default().ignore_case()`. The claims: the score depends on
/// the two texts alone, and there is one exactly when the pattern is a
/// subsequence of the choice, ASCII case aside (the matcher first scans the
/// choice greedily for the pattern's characters and gives up only if that
/// scan fails).
#[verifier::external_body]
pub(crate) fn fuzzy_match(choice: &str, pattern: &str) -> (r: Option<i64>)
    ensures
        r == skim_score(choice@, pattern@),
        r.is_some() == is_subsequence(pattern@, choice@),
{
    SkimMatcherV2::default().ignore_case().fuzzy_match(choice, pattern)
}

/// Calls `SkimMatcherV2::fuzzy_indices` on a matcher built the same way.
/// The claims: score and positions depend on the two texts alone, and there
/// are some exactly when the pattern is a subsequence of the choice, ASCII
/// case aside.
#[verifier::external_body]
pub(crate) fn fuzzy_indices(choice: &str, pattern: &str) -> (r: Option<(i64, Vec<usize>)>)
    ensures
        match r {
            Some((score, at)) => skim_indices(choice@, pattern@) == Some((score, at@)),
            None => skim_indices(choice@, pattern@).is_none(),
        },
        r.is_some() == is_subsequence(pattern@, choice@),
{
    SkimMatcherV2::default().ignore_case().fuzzy_indices(choice, pattern)
}

/// The match an entry yields given what the matcher said of its key: none
/// without a score; otherwise the score with the reported positions, or with
/// no positions where none were reported.
pub open spec fn built_match(
    e: EntryView,
    score: Option<i64>,
    indices: Option<(i64, Seq<usize>)>,
) -> Option<MatchView> {
    match score {
        None => None,
        Some(s) => Some(
            MatchView {
                score: s,
                positions: match indices {
                    Some((_, at)) => at,
                    None => Seq::empty(),
                },
                entry: e,
            },
        ),
    }
}

/// The match of an entry against a query, evaluated afresh.
pub open spec fn match_of(e: EntryView, query: Seq<char>) -> Option<MatchView> {
    built_match(e, skim_score(e.key, query), skim_indices(e.key, query))
}

/// What an optional match holds.
pub open spec fn option_view(m: Option<MatchResult>) -> Option<MatchView> {
    match m {
        Some(r) => Some(r@),
        None => None,
    }
}

/// What optional matcher output holds.
pub open spec fn indices_view(i: Option<(i64, Vec<usize>)>) -> Option<(i64, Seq<usize>)> {
    match i {
        Some((s, at)) => Some((s, at@)),
        None => None,
    }
}

/// Builds the match of `entry` from what the matcher said of its key.
pub fn assemble_match(entry: &FileEntry, score: Option<i64>, indices: Option<(i64, Vec<usize>)>) -> (r:
    Option<MatchResult>)
    ensures
        option_view(r) == built_match(entry@, score, indices_view(indices)),
{
    match score {
        None => None,
        Some(s) => {
            let positions = match indices {
                Some((_, at)) => at,
                None => Vec::new(),
            };
            Some(MatchResult { score: s, positions, entry: entry.clone() })
        },
    }
}

/// Scores `entry` against `query`; positions are asked for only where the
/// entry matches.
pub fn match_entry(entry: &FileEntry, query: &str) -> (r: Option<MatchResult>)
    ensures
        option_view(r) == match_of(entry@, query@),
        r.is_some() == is_subsequence(query@, entry@.key),
{
    let score = fuzzy_match(entry.key(), query);
    if score.is_some() {
        let indices = fuzzy_indices(entry.key(), query);
        assemble_match(entry, score, indices)
    } else {
        None
    }
}

} // verus!
