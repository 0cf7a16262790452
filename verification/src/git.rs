//! Finding the root of a git work tree and reading git's status lines.

use crate::text::{same_text, texts};
use vstd::prelude::*;
use vstd::string::*;

verus! {

/// The first of `n` directories that holds a `.git` entry.
pub open spec fn first_marked(n: int, has_git: Seq<bool>) -> Option<int>
    decreases n,
{
    if n <= 0 {
        None
    } else {
        match first_marked(n - 1, has_git) {
            Some(i) => Some(i),
            None => if n - 1 < has_git.len() && has_git[n - 1] {
                Some(n - 1)
            } else {
                None
            },
        }
    }
}

/// A directory found marked among the first `k` stays the first marked one
/// among the first `n`.
pub proof fn lemma_first_marked_stays(k: int, n: int, has_git: Seq<bool>)
    requires
        0 <= k <= n,
        first_marked(k, has_git).is_some(),
    ensures
        first_marked(n, has_git) == first_marked(k, has_git),
    decreases n - k,
{
    if k < n {
        lemma_first_marked_stays(k, n - 1, has_git);
    }
}

/// The root of the work tree that holds a directory. `ancestors` lists the
/// directory and then its parents, nearest first; `has_git` says of each
/// whether it holds a `.git` entry (a directory without an answer holds
/// none). The root is the nearest that does.
pub fn find_git_root(ancestors: &Vec<String>, has_git: &Vec<bool>) -> (r: Option<String>)
    ensures
        match r {
            Some(root) => first_marked(ancestors@.len() as int, has_git@).is_some() && root@
                == ancestors@[first_marked(ancestors@.len() as int, has_git@).unwrap()]@,
            None => first_marked(ancestors@.len() as int, has_git@).is_none(),
        },
{
    let mut i: usize = 0;
    while i < ancestors.len()
        invariant
            i <= ancestors.len(),
            first_marked(i as int, has_git@).is_none(),
        decreases ancestors.len() - i,
    {
        if i < has_git.len() && has_git[i] {
            proof {
                assert(first_marked(i + 1, has_git@) == Some(i as int));
                lemma_first_marked_stays(i + 1, ancestors@.len() as int, has_git@);
            }
            return Some(ancestors[i].clone());
        }
        i += 1;
    }
    None
}

/// The lines of a text as `str::lines` cuts it.
pub uninterp spec fn lines_of(text: Seq<char>) -> Seq<Seq<char>>;

/// The words of a line as `str::split_whitespace` cuts it.
pub uninterp spec fn words_of(line: Seq<char>) -> Seq<Seq<char>>;

/// Calls `str::lines` and collects the lines. The claim: the lines depend
/// on the text alone.
#[verifier::external_body]
pub(crate) fn split_lines(text: &str) -> (r: Vec<String>)
    ensures
        texts(r@) == lines_of(text@),
{
    text.lines().map(|l| l.to_string()).collect()
}

/// Calls `str::split_whitespace` and collects the words. The claim: the
/// words depend on the line alone.
#[verifier::external_body]
pub(crate) fn split_words(line: &str) -> (r: Vec<String>)
    ensures
        texts(r@) == words_of(line@),
{
    line.split_whitespace().map(|w| w.to_string()).collect()
}

/// What a status line says, given the line and its words: the path and its
/// two-letter state. A changed or renamed entry (`1` or `2`) gives its
/// state second and its path ninth; an untracked entry is `??`, an ignored
/// one `!!`. Empty lines, headers and anything else say nothing.
pub open spec fn line_status(line: Seq<char>, words: Seq<Seq<char>>) -> Option<(Seq<char>, Seq<char>)> {
    if line.len() == 0 || line[0] == '#' || words.len() == 0 {
        None
    } else if (words[0] == "1"@ || words[0] == "2"@) && words.len() >= 9 {
        Some((words[8], words[1]))
    } else if words[0] == "?"@ && words.len() >= 2 {
        Some((words[1], "??"@))
    } else if words[0] == "!"@ && words.len() >= 2 {
        Some((words[1], "!!"@))
    } else {
        None
    }
}

/// What an optional pair of texts holds.
pub open spec fn pair_view(p: Option<(String, String)>) -> Option<(Seq<char>, Seq<char>)> {
    match p {
        Some((a, b)) => Some((a@, b@)),
        None => None,
    }
}

/// Reads one status line that was cut into words.
pub fn status_of_line(line: &str, words: &Vec<String>) -> (r: Option<(String, String)>)
    ensures
        pair_view(r) == line_status(line@, texts(words@)),
{
    proof {
        reveal_strlit("#");
    }
    let ghost w = texts(words@);
    if line.is_empty() || line.get_char(0) == '#' || words.len() == 0 {
        return None;
    }
    assert(w[0] == words@[0]@);
    let kind = words[0].as_str();
    if (same_text(kind, "1") || same_text(kind, "2")) && words.len() >= 9 {
        assert(w[8] == words@[8]@ && w[1] == words@[1]@);
        Some((words[8].clone(), words[1].clone()))
    } else if same_text(kind, "?") && words.len() >= 2 {
        assert(w[1] == words@[1]@);
        Some((words[1].clone(), "??".to_owned()))
    } else if same_text(kind, "!") && words.len() >= 2 {
        assert(w[1] == words@[1]@);
        Some((words[1].clone(), "!!".to_owned()))
    } else {
        None
    }
}

/// The states that the first `n` status lines give, by path: a later line
/// replaces what an earlier one said of the same path.
pub open spec fn status_states(lines: Seq<Seq<char>>, n: int) -> Map<Seq<char>, Seq<char>>
    decreases n,
{
    if n <= 0 {
        Map::empty()
    } else {
        let m = status_states(lines, n - 1);
        match line_status(lines[n - 1], words_of(lines[n - 1])) {
            Some((path, state)) => m.insert(path, state),
            None => m,
        }
    }
}

/// The states with the first `n` files under version control added: such a file of
/// which no status line spoke is clean (`.`).
pub open spec fn with_listed(m: Map<Seq<char>, Seq<char>>, listed: Seq<Seq<char>>, n: int) -> Map<
    Seq<char>,
    Seq<char>,
>
    decreases n,
{
    if n <= 0 {
        m
    } else {
        let before = with_listed(m, listed, n - 1);
        if before.contains_key(listed[n - 1]) {
            before
        } else {
            before.insert(listed[n - 1], "."@)
        }
    }
}

/// The state of every path that git reports, from the output of
/// `git status --porcelain=v2 --untracked-files=all` and of `git ls-files`.
pub open spec fn status_map(status_output: Seq<char>, listed_output: Seq<char>) -> Map<
    Seq<char>,
    Seq<char>,
> {
    let lines = lines_of(status_output);
    let listed = lines_of(listed_output);
    with_listed(status_states(lines, lines.len() as int), listed, listed.len() as int)
}

/// What a list of pairs says as a map; the list holds no path twice.
pub open spec fn pairs_map(v: Seq<(String, String)>) -> Map<Seq<char>, Seq<char>> {
    Map::new(
        |p: Seq<char>| exists|k: int| 0 <= k < v.len() && (#[trigger] v[k]).0@ == p,
        |p: Seq<char>| {
            let k = choose|k: int| 0 <= k < v.len() && (#[trigger] v[k]).0@ == p;
            v[k].1@
        },
    )
}

/// No path stands twice in the list.
pub open spec fn distinct_paths(v: Seq<(String, String)>) -> bool {
    forall|i: int, j: int| 0 <= i < j < v.len() ==> (#[trigger] v[i]).0@ != (#[trigger] v[j]).0@
}

/// Where a path stands in the list.
pub fn find_path(v: &Vec<(String, String)>, path: &str) -> (r: Option<usize>)
    ensures
        match r {
            Some(i) => i < v@.len() && v@[i as int].0@ == path@,
            None => forall|k: int| 0 <= k < v@.len() ==> (#[trigger] v@[k]).0@ != path@,
        },
{
    let mut i: usize = 0;
    while i < v.len()
        invariant
            i <= v@.len(),
            forall|k: int| 0 <= k < i ==> (#[trigger] v@[k]).0@ != path@,
        decreases v@.len() - i,
    {
        if same_text(v[i].0.as_str(), path) {
            return Some(i);
        }
        i += 1;
    }
    None
}

/// Records the state of a path; a state recorded before is replaced only
/// where `replace` says so.
pub fn record(v: &mut Vec<(String, String)>, path: String, state: String, replace: bool)
    requires
        distinct_paths(old(v)@),
    ensures
        distinct_paths(final(v)@),
        pairs_map(final(v)@) == if replace || !pairs_map(old(v)@).contains_key(path@) {
            pairs_map(old(v)@).insert(path@, state@)
        } else {
            pairs_map(old(v)@)
        },
{
    let ghost before = v@;
    let ghost p = path@;
    let ghost st = state@;
    match find_path(v, path.as_str()) {
        Some(i) => {
            assert(pairs_map(before).contains_key(p));
            if replace {
                v.set(i, (path, state));
                let ghost after = v@;
                assert(distinct_paths(after)) by {
                    assert forall|a: int, b: int| 0 <= a < b < after.len() implies (#[trigger] after[a]).0@
                        != (#[trigger] after[b]).0@ by {
                        assert(after[a].0@ == before[a].0@ && after[b].0@ == before[b].0@);
                    }
                }
                assert(pairs_map(after) =~= pairs_map(before).insert(p, st)) by {
                    assert forall|q: Seq<char>| pairs_map(after).contains_key(q) == pairs_map(
                        before,
                    ).insert(p, st).contains_key(q) by {
                        if pairs_map(after).contains_key(q) {
                            let k = choose|k: int| 0 <= k < after.len() && (#[trigger] after[k]).0@ == q;
                            assert(before[k].0@ == q);
                        }
                        if pairs_map(before).contains_key(q) {
                            let k = choose|k: int| 0 <= k < before.len() && (#[trigger] before[k]).0@ == q;
                            assert(after[k].0@ == q);
                        }
                        if q == p {
                            assert(after[i as int].0@ == q);
                        }
                    }
                    assert forall|q: Seq<char>| pairs_map(after).contains_key(q) implies pairs_map(
                        after,
                    )[q] == pairs_map(before).insert(p, st)[q] by {
                        let k = choose|k: int| 0 <= k < after.len() && (#[trigger] after[k]).0@ == q;
                        if q == p {
                            assert(k == i) by {
                                if k != i {
                                    assert(before[k].0@ == q && before[i as int].0@ == q);
                                }
                            }
                        } else {
                            let w = choose|w: int| 0 <= w < before.len() && (#[trigger] before[w]).0@ == q;
                            assert(before[k].0@ == q);
                            assert(w == k) by {
                                if w != k {
                                    assert(before[w].0@ == before[k].0@);
                                }
                            }
                        }
                    }
                }
            }
        },
        None => {
            assert(!pairs_map(before).contains_key(p));
            v.push((path, state));
            let ghost after = v@;
            assert(distinct_paths(after)) by {
                assert forall|a: int, b: int| 0 <= a < b < after.len() implies (#[trigger] after[a]).0@
                    != (#[trigger] after[b]).0@ by {
                    if b < before.len() {
                        assert(after[a] == before[a] && after[b] == before[b]);
                    } else {
                        assert(after[a] == before[a]);
                    }
                }
            }
            assert(pairs_map(after) =~= pairs_map(before).insert(p, st)) by {
                assert forall|q: Seq<char>| pairs_map(after).contains_key(q) == pairs_map(
                    before,
                ).insert(p, st).contains_key(q) by {
                    if pairs_map(after).contains_key(q) {
                        let k = choose|k: int| 0 <= k < after.len() && (#[trigger] after[k]).0@ == q;
                        if k < before.len() {
                            assert(before[k].0@ == q);
                        }
                    }
                    if pairs_map(before).contains_key(q) {
                        let k = choose|k: int| 0 <= k < before.len() && (#[trigger] before[k]).0@ == q;
                        assert(after[k].0@ == q);
                    }
                    if q == p {
                        assert(after[before.len() as int].0@ == q);
                    }
                }
                assert forall|q: Seq<char>| pairs_map(after).contains_key(q) implies pairs_map(
                    after,
                )[q] == pairs_map(before).insert(p, st)[q] by {
                    let k = choose|k: int| 0 <= k < after.len() && (#[trigger] after[k]).0@ == q;
                    if q == p {
                        assert(k == before.len()) by {
                            if k < before.len() {
                                assert(before[k].0@ == q);
                            }
                        }
                    } else {
                        let w = choose|w: int| 0 <= w < before.len() && (#[trigger] before[w]).0@ == q;
                        assert(k < before.len());
                        assert(before[k].0@ == q);
                        assert(w == k) by {
                            if w != k {
                                assert(before[w].0@ == before[k].0@);
                            }
                        }
                    }
                }
            }
        },
    }
}

/// The state of every path that git reports, as pairs of path and state
/// that hold no path twice.
pub fn get_git_status_map(status_output: &str, listed_output: &str) -> (r: Vec<(String, String)>)
    ensures
        distinct_paths(r@),
        pairs_map(r@) == status_map(status_output@, listed_output@),
{
    let mut map: Vec<(String, String)> = Vec::new();
    assert(pairs_map(map@) =~= Map::<Seq<char>, Seq<char>>::empty());
    let lines = split_lines(status_output);
    let ghost ls = texts(lines@);
    let mut i: usize = 0;
    while i < lines.len()
        invariant
            i <= lines@.len(),
            ls == texts(lines@),
            ls == lines_of(status_output@),
            distinct_paths(map@),
            pairs_map(map@) == status_states(ls, i as int),
        decreases lines@.len() - i,
    {
        let line = lines[i].as_str();
        assert(ls[i as int] == line@);
        let words = split_words(line);
        match status_of_line(line, &words) {
            Some((path, state)) => {
                record(&mut map, path, state, true);
            },
            None => {},
        }
        i += 1;
    }
    let listed = split_lines(listed_output);
    let ghost ts = texts(listed@);
    let ghost base = pairs_map(map@);
    let mut k: usize = 0;
    while k < listed.len()
        invariant
            k <= listed@.len(),
            ts == texts(listed@),
            ts == lines_of(listed_output@),
            base == status_states(ls, ls.len() as int),
            ls == lines_of(status_output@),
            distinct_paths(map@),
            pairs_map(map@) == with_listed(base, ts, k as int),
        decreases listed@.len() - k,
    {
        assert(ts[k as int] == listed@[k as int]@);
        record(&mut map, listed[k].clone(), ".".to_owned(), false);
        k += 1;
    }
    map
}

} // verus!
