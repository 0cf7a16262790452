use lla::config::Config;
use lla::finder::entry::{FileEntry, MatchResult};
use lla::finder::ignore::{any_rule_matches, excluded_by, rule_matches};
use lla::finder::index::{
    browse_entries, chunk_size, doubled, rank_results, rescore, scan_chunk, SearchIndex,
};
use lla::finder::matcher::{assemble_match, match_entry};

fn config_with_rules(rules: &[&str]) -> Config {
    let mut config = Config::with_plugins_dir("plugins".to_string());
    config.listers.fuzzy.ignore_patterns = rules.iter().map(|r| r.to_string()).collect();
    config
}

fn entries(paths: &[&str]) -> Vec<FileEntry> {
    paths.iter().map(|p| FileEntry::new(p.to_string(), 0)).collect()
}

fn index_of(paths: &[&str]) -> SearchIndex {
    let mut index = SearchIndex::new(config_with_rules(&[]));
    index.add_entries(entries(paths));
    index
}

fn paths_of(results: &[MatchResult]) -> Vec<String> {
    results.iter().map(|r| r.entry.path().to_string()).collect()
}

fn is_ranked(results: &[MatchResult]) -> bool {
    results.windows(2).all(|w| {
        w[0].score > w[1].score
            || (w[0].score == w[1].score && w[0].entry.path().len() <= w[1].entry.path().len())
    })
}

#[test]
fn entry_is_named_by_its_last_component() {
    let e = FileEntry::new("src/Main.RS".to_string(), 7);
    assert_eq!(e.path(), "src/Main.RS");
    assert_eq!(e.name(), "Main.RS");
    assert_eq!(e.key(), "src/main.rs");
    assert_eq!(e.modified(), 7);
    assert_eq!(e.path_len(), 11);
}

#[test]
fn entry_from_parts_keeps_the_given_name() {
    let e = FileEntry::from_parts("a/B.txt".to_string(), "shown".to_string(), 3);
    assert_eq!(e.name(), "shown");
    assert_eq!(e.key(), "a/b.txt");
    let copy = e.clone();
    assert_eq!(copy.path(), "a/B.txt");
    assert_eq!(copy.modified(), 3);
}

#[test]
fn empty_query_lists_entries_by_name() {
    let mut index = index_of(&["z/beta.txt", "y/alpha.txt", "x/gamma.txt", "w/alpha.txt"]);
    let results = index.search("", 10);
    assert_eq!(
        paths_of(&results),
        vec!["y/alpha.txt", "w/alpha.txt", "z/beta.txt", "x/gamma.txt"]
    );
    assert!(results.iter().all(|r| r.score == 0 && r.positions.is_empty()));
}

#[test]
fn empty_query_returns_the_smaller_of_count_and_limit() {
    let mut index = index_of(&["c", "b", "a", "d"]);
    assert_eq!(index.search("", 10).len(), 4);
    assert_eq!(index.search("", 4).len(), 4);
    assert_eq!(index.search("", 0).len(), 0);
    // the first three indexed entries, ordered by name
    assert_eq!(paths_of(&index.search("", 3)), vec!["a", "b", "c"]);
    assert_eq!(paths_of(&index.search("", 2)), vec!["b", "c"]);
}

#[test]
fn results_are_never_false_positives() {
    let mut index = index_of(&["apple.txt", "banana.txt", "app.rs", "src/map.rs", "Grape.TXT"]);
    for query in ["ap", "a", "rs", "xyz", "APP", "txt"] {
        let results = index.search(query, 10);
        for r in &results {
            let fresh = match_entry(&r.entry, query).expect("a result must match when scored afresh");
            assert_eq!(fresh.score, r.score);
            assert_eq!(fresh.positions, r.positions);
        }
    }
}

#[test]
fn search_is_idempotent() {
    let mut index = index_of(&["apple.txt", "banana.txt", "app.rs", "a/p/p.txt", "pa.txt"]);
    for query in ["", "ap", "app", "p", "zzz"] {
        let first = index.search(query, 3);
        let second = index.search(query, 3);
        assert_eq!(paths_of(&first), paths_of(&second));
        let scores_a: Vec<i64> = first.iter().map(|r| r.score).collect();
        let scores_b: Vec<i64> = second.iter().map(|r| r.score).collect();
        assert_eq!(scores_a, scores_b);
    }
}

#[test]
fn search_respects_the_limit() {
    let mut index = index_of(&["a1", "a2", "a3", "a4", "a5"]);
    for k in 0..7 {
        assert!(index.search("a", k).len() <= k);
        assert!(index.search("", k).len() <= k);
    }
    // a fresh index has no cache to refine from
    let mut fresh = index_of(&["a1", "a2", "a3", "a4", "a5"]);
    assert_eq!(fresh.search("a", 2).len(), 2);
    // the same query again is answered from the two cached results
    assert_eq!(fresh.search("a", 4).len(), 2);
}

#[test]
fn query_ap_finds_apple_and_app() {
    let mut index = index_of(&["apple.txt", "banana.txt", "app.rs"]);
    let results = index.search("ap", 1000);
    let paths = paths_of(&results);
    assert!(paths.contains(&"apple.txt".to_string()));
    assert!(paths.contains(&"app.rs".to_string()));
    assert!(!paths.contains(&"banana.txt".to_string()));
    assert_eq!(results.len(), 2);
    assert!(is_ranked(&results));
    let app = results.iter().position(|r| r.entry.path() == "app.rs").unwrap();
    let apple = results.iter().position(|r| r.entry.path() == "apple.txt").unwrap();
    if results[app].score == results[apple].score {
        assert!(app < apple);
    }
}

#[test]
fn extending_the_query_refines_the_cached_results() {
    let mut index = index_of(&["apple.txt", "banana.txt", "app.rs"]);
    let first = paths_of(&index.search("ap", 1000));
    assert_eq!(index.last_query(), "ap");
    let second = index.search("app", 1000);
    // the incremental path leaves the cache as the full scan made it
    assert_eq!(index.last_query(), "ap");
    for r in &second {
        assert!(first.contains(&r.entry.path().to_string()));
        assert!(match_entry(&r.entry, "app").is_some());
    }
    assert!(paths_of(&second).contains(&"app.rs".to_string()));
}

#[test]
fn empty_refinement_falls_back_to_a_full_scan() {
    let mut index = index_of(&["apple.txt", "banana.txt", "app.rs"]);
    // only the best match is cached
    let first = index.search("a", 1);
    assert_eq!(first.len(), 1);
    let cached = first[0].entry.path().to_string();
    // a query that extends "a" and that the cached entry does not match
    let query = if cached == "banana.txt" { "app" } else { "an" };
    assert!(match_entry(&first[0].entry, query).is_none());
    let results = index.search(query, 1000);
    assert_eq!(index.last_query(), query);
    assert!(!results.is_empty());
    let expected = if query == "app" { "app.rs" } else { "banana.txt" };
    assert!(paths_of(&results).contains(&expected.to_string()));
}

#[test]
fn a_query_that_does_not_extend_the_cache_scans_everything() {
    let mut index = index_of(&["apple.txt", "banana.txt", "app.rs"]);
    index.search("ap", 1000);
    let results = index.search("ban", 1000);
    assert_eq!(paths_of(&results), vec!["banana.txt"]);
    assert_eq!(index.last_query(), "ban");
}

#[test]
fn the_incremental_path_may_miss_later_entries() {
    let mut index = index_of(&["apple.txt"]);
    index.search("ap", 1000);
    index.add_entries(entries(&["app.rs"]));
    let refined = index.search("app", 1000);
    assert_eq!(paths_of(&refined), vec!["apple.txt"]);
    // a query that is no extension scans again and sees the new entry
    let scanned = index.search("pp", 1000);
    assert_eq!(scanned.len(), 2);
}

#[test]
fn matching_ignores_case_and_needs_a_subsequence() {
    let e = FileEntry::new("Docs/ReadMe.md".to_string(), 0);
    assert!(match_entry(&e, "README").is_some());
    assert!(match_entry(&e, "dmd").is_some());
    assert!(match_entry(&e, "mdd").is_none());
    assert!(match_entry(&e, "x").is_none());
    let hit = match_entry(&e, "read").unwrap();
    assert_eq!(hit.positions, vec![5, 6, 7, 8]);
    assert_eq!(hit.entry.path(), "Docs/ReadMe.md");
}

#[test]
fn a_match_is_built_from_what_the_matcher_said() {
    let e = FileEntry::new("a.txt".to_string(), 0);
    assert!(assemble_match(&e, None, Some((5, vec![0]))).is_none());
    let with = assemble_match(&e, Some(9), Some((7, vec![0, 2]))).unwrap();
    assert_eq!(with.score, 9);
    assert_eq!(with.positions, vec![0, 2]);
    let without = assemble_match(&e, Some(4), None).unwrap();
    assert_eq!(without.score, 4);
    assert!(without.positions.is_empty());
}

#[test]
fn ranking_orders_by_score_then_path_length_then_position() {
    let make = |path: &str, score: i64| MatchResult {
        score,
        positions: vec![],
        entry: FileEntry::new(path.to_string(), 0),
    };
    let found = vec![
        make("bbbb", 5),
        make("cc", 5),
        make("a", 1),
        make("dd", 5),
        make("eeeeee", 9),
    ];
    let ranked = rank_results(&found, 10);
    assert_eq!(paths_of(&ranked), vec!["eeeeee", "cc", "dd", "bbbb", "a"]);
    assert_eq!(paths_of(&rank_results(&found, 2)), vec!["eeeeee", "cc"]);
    assert!(rank_results(&found, 0).is_empty());
}

#[test]
fn ranking_many_ties_keeps_the_order_found() {
    let found: Vec<MatchResult> = (0..500)
        .map(|i| MatchResult {
            score: (i % 3) as i64,
            positions: vec![],
            entry: FileEntry::new(format!("f{:03}", i), 0),
        })
        .collect();
    let ranked = rank_results(&found, 500);
    assert_eq!(ranked.len(), 500);
    for w in ranked.windows(2) {
        assert!(w[0].score >= w[1].score);
        if w[0].score == w[1].score {
            assert!(w[0].entry.path() < w[1].entry.path());
        }
    }
}

#[test]
fn browsing_many_entries_orders_them_by_name() {
    let all: Vec<FileEntry> =
        (0..300).rev().map(|i| FileEntry::new(format!("d{}/n{:03}", i % 7, i), 0)).collect();
    let shown = browse_entries(&all, 1000);
    assert_eq!(shown.len(), 300);
    for w in shown.windows(2) {
        assert!(w[0].entry.name() < w[1].entry.name());
    }
}

#[test]
fn a_chunk_is_scanned_in_order() {
    let all = entries(&["xa", "b", "ya", "a"]);
    let hits = scan_chunk(&all, "a");
    assert_eq!(paths_of(&hits), vec!["xa", "ya", "a"]);
    assert!(scan_chunk(&all[..0], "a").is_empty());
}

#[test]
fn a_full_scan_of_a_large_index_finds_every_match() {
    let paths: Vec<String> = (0..20_000).map(|i| format!("dir{}/file{}.txt", i % 10, i)).collect();
    let mut index = SearchIndex::new(config_with_rules(&[]));
    index.add_entries(paths.iter().map(|p| FileEntry::new(p.clone(), 0)).collect());
    assert_eq!(index.len(), 20_000);
    let results = index.search("file19999", 50);
    assert_eq!(results[0].entry.path(), "dir9/file19999.txt");
    let all = index.search("txt", 100_000);
    assert_eq!(all.len(), 20_000);
    assert!(is_ranked(&all));
}

#[test]
fn rescoring_looks_at_the_first_cached_results_only() {
    let make = |path: &str| MatchResult {
        score: 1,
        positions: vec![],
        entry: FileEntry::new(path.to_string(), 0),
    };
    let cached = vec![make("ab"), make("b"), make("abc"), make("cab")];
    assert_eq!(paths_of(&rescore(&cached, 10, "ab")), vec!["ab", "abc", "cab"]);
    assert_eq!(paths_of(&rescore(&cached, 2, "ab")), vec!["ab"]);
    assert!(rescore(&cached, 0, "ab").is_empty());
}

#[test]
fn chunks_are_an_eighth_of_the_index_but_not_under_a_thousand() {
    assert_eq!(chunk_size(0), 1000);
    assert_eq!(chunk_size(8000), 1000);
    assert_eq!(chunk_size(8008), 1001);
    assert_eq!(chunk_size(80_000), 10_000);
    assert_eq!(doubled(21), 42);
    assert_eq!(doubled(usize::MAX), usize::MAX);
    assert_eq!(doubled(usize::MAX / 2 + 1), usize::MAX);
}

#[test]
fn ignore_rules_are_substrings_globs_or_regexes() {
    assert!(rule_matches("node_modules", "a/node_modules/x.js"));
    assert!(!rule_matches("node_modules", "a/modules/x.js"));
    assert!(rule_matches("glob:*.min.js", "dist/app.min.js"));
    assert!(!rule_matches("glob:*.min.js", "dist/app.js"));
    assert!(rule_matches("regex:.*\\.pyc$", "pkg/mod.pyc"));
    assert!(!rule_matches("regex:.*\\.pyc$", "pkg/mod.pyc.txt"));
    // an empty rule occurs in every path
    assert!(rule_matches("", "anything"));
}

#[test]
fn malformed_patterns_never_match() {
    assert!(!rule_matches("regex:(", "("));
    assert!(!rule_matches("glob:[", "["));
    assert!(!rule_matches("regex:[a-", "a"));
    assert!(!excluded_by(None));
    assert!(!excluded_by(Some(false)));
    assert!(excluded_by(Some(true)));
}

#[test]
fn the_first_matching_rule_excludes() {
    let rules: Vec<String> =
        ["regex:(", "glob:*.tmp", "target"].iter().map(|s| s.to_string()).collect();
    assert!(any_rule_matches(&rules, "a/b.tmp"));
    assert!(any_rule_matches(&rules, "target/debug/x"));
    assert!(!any_rule_matches(&rules, "src/main.rs"));
    assert!(!any_rule_matches(&Vec::new(), "target"));
}

#[test]
fn ignored_entries_are_not_indexed() {
    let mut index = SearchIndex::new(config_with_rules(&["target", "glob:*.log"]));
    assert!(index.should_ignore_path("x/target/y"));
    assert!(!index.should_ignore_path("x/src/y"));
    let added = index.add_entries(entries(&["target/a.rs", "src/a.rs", "b.log", "src/b.rs"]));
    assert!(added);
    assert_eq!(index.len(), 2);
    assert_eq!(paths_of(&index.search("", 10)), vec!["src/a.rs", "src/b.rs"]);
    assert!(!index.add_entries(entries(&["target/c.rs", "x.log"])));
    assert!(!index.add_entries(Vec::new()));
    assert_eq!(index.len(), 2);
}

#[test]
fn the_default_rules_skip_build_and_tool_directories() {
    let mut index = SearchIndex::new(Config::with_plugins_dir("p".to_string()));
    index.add_entries(entries(&[
        "node_modules/a.js",
        "target/debug/a",
        ".git/config",
        ".idea/x.xml",
        ".vscode/settings.json",
        "src/lib.rs",
    ]));
    assert_eq!(paths_of(&index.search("", 10)), vec!["src/lib.rs"]);
}

#[test]
fn no_entry_is_shown_twice() {
    let paths = ["ab/ab.txt", "ab.txt", "b/a/b", "xab", "abab"];
    let mut index = index_of(&paths);
    for query in ["", "a", "ab", "abab", "b"] {
        let results = index.search(query, 10);
        let mut seen: Vec<&str> = results.iter().map(|r| r.entry.path()).collect();
        let shown = seen.len();
        seen.sort();
        seen.dedup();
        assert_eq!(seen.len(), shown);
        for path in seen {
            assert!(paths.contains(&path));
        }
    }
}
