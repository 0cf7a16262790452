use lla::args::{
    depth_in_force, get_format, icons_in_force, no_dotfiles_in_force, output_mode_of,
    resolve_formats, FormatFlags, OutputMode,
};
use lla::filter::{create_base_filter, create_base_filters, create_filter, FilterSpec, PatternKind};
use lla::finder::batch::{Batcher, BATCH_SIZE};
use lla::finder::entry::FileEntry;
use lla::organizer::strategies::{get_strategy, group_moves, same_texts, Move, StrategyKind};
use lla::serializable::{
    file_type_of, fmt_ts_opt, fmt_ts_required, is_hidden, to_serializable, to_signed, EntryFacts,
    EntryMetadata,
};

fn kinds(filters: &[lla::filter::BaseFilter]) -> Vec<(PatternKind, &str, bool)> {
    filters.iter().map(|b| (b.kind, b.pattern.as_str(), b.case_insensitive)).collect()
}

fn facts(name: &str) -> EntryFacts {
    EntryFacts {
        name: name.to_string(),
        extension: Some("rs".to_string()),
        owner_user: Some("u".to_string()),
        owner_group: None,
        inode: Some(7),
        hard_links: Some(1),
        recorded_target: None,
        read_target: Some("/read".to_string()),
    }
}

#[test]
fn plain_patterns_are_known_by_how_they_start() {
    let b = create_base_filter("regex:^a.*", true);
    assert_eq!((b.kind, b.pattern.as_str(), b.case_insensitive), (PatternKind::Regex, "^a.*", true));
    let b = create_base_filter("glob:*.rs", false);
    assert_eq!((b.kind, b.pattern.as_str(), b.case_insensitive), (PatternKind::Glob, "*.rs", false));
    let b = create_base_filter(".rs", true);
    assert_eq!((b.kind, b.pattern.as_str()), (PatternKind::Extension, "rs"));
    let b = create_base_filter("main", true);
    assert_eq!((b.kind, b.pattern.as_str()), (PatternKind::Pattern, "main"));
    let b = create_base_filter("", true);
    assert_eq!((b.kind, b.pattern.as_str()), (PatternKind::Pattern, ""));
    let b = create_base_filter("regex:", true);
    assert_eq!((b.kind, b.pattern.as_str()), (PatternKind::Regex, ""));
    let b = create_base_filter("Regex:x", true);
    assert_eq!((b.kind, b.pattern.as_str()), (PatternKind::Pattern, "Regex:x"));
}

#[test]
fn expressions_are_cut_at_and_and_or() {
    match create_filter(Some("a AND  .rs AND glob:*x "), false) {
        FilterSpec::And(parts) => assert_eq!(
            kinds(&parts),
            vec![
                (PatternKind::Pattern, "a", true),
                (PatternKind::Extension, "rs", true),
                (PatternKind::Glob, "*x", true),
            ]
        ),
        other => panic!("unexpected {:?}", other),
    }
    match create_filter(Some("a OR b"), true) {
        FilterSpec::Or(parts) => assert_eq!(
            kinds(&parts),
            vec![(PatternKind::Pattern, "a", false), (PatternKind::Pattern, "b", false)]
        ),
        other => panic!("unexpected {:?}", other),
    }
    // AND is looked for before OR
    match create_filter(Some("a OR b AND c"), true) {
        FilterSpec::And(parts) => assert_eq!(
            kinds(&parts),
            vec![(PatternKind::Pattern, "a OR b", false), (PatternKind::Pattern, "c", false)]
        ),
        other => panic!("unexpected {:?}", other),
    }
    let pieces = vec![" x ".to_string(), ".y".to_string()];
    assert_eq!(
        kinds(&create_base_filters(&pieces, false)),
        vec![(PatternKind::Pattern, "x", false), (PatternKind::Extension, "y", false)]
    );
}

#[test]
fn expressions_may_start_with_not_or_xor() {
    match create_filter(Some("NOT .tmp"), false) {
        FilterSpec::Not(b) => {
            assert_eq!((b.kind, b.pattern.as_str(), b.case_insensitive), (PatternKind::Extension, "tmp", true))
        }
        other => panic!("unexpected {:?}", other),
    }
    match create_filter(Some("XOR regex:a"), true) {
        FilterSpec::Xor(b) => {
            assert_eq!((b.kind, b.pattern.as_str(), b.case_insensitive), (PatternKind::Regex, "a", false))
        }
        other => panic!("unexpected {:?}", other),
    }
    match create_filter(Some("NOTHING"), false) {
        FilterSpec::Single(b) => assert_eq!((b.kind, b.pattern.as_str()), (PatternKind::Pattern, "NOTHING")),
        other => panic!("unexpected {:?}", other),
    }
    match create_filter(None, false) {
        FilterSpec::Single(b) => {
            assert_eq!((b.kind, b.pattern.as_str(), b.case_insensitive), (PatternKind::Pattern, "", false))
        }
        other => panic!("unexpected {:?}", other),
    }
}

#[test]
fn plugins_are_told_the_format_by_name() {
    let none = FormatFlags {
        fuzzy: false,
        long: false,
        tree: false,
        table: false,
        grid: false,
        sizemap: false,
        timeline: false,
        git: false,
        recursive: false,
    };
    assert_eq!(get_format(none), "default");
    assert_eq!(get_format(FormatFlags { sizemap: true, git: true, timeline: true, ..none }), "default");
    assert_eq!(get_format(FormatFlags { recursive: true, ..none }), "recursive");
    assert_eq!(get_format(FormatFlags { grid: true, recursive: true, ..none }), "grid");
    assert_eq!(get_format(FormatFlags { table: true, grid: true, ..none }), "table");
    assert_eq!(get_format(FormatFlags { tree: true, table: true, ..none }), "tree");
    assert_eq!(get_format(FormatFlags { long: true, tree: true, ..none }), "long");
    assert_eq!(get_format(FormatFlags { fuzzy: true, long: true, ..none }), "fuzzy");
}

#[test]
fn batches_are_full_but_for_the_last() {
    let mut batcher = Batcher::new();
    let mut handed = Vec::new();
    for i in 0..(2 * BATCH_SIZE + 5) {
        if let Some(batch) = batcher.push(FileEntry::new(format!("f{}", i), 0)) {
            assert_eq!(batch.len(), BATCH_SIZE);
            handed.extend(batch);
        }
    }
    assert_eq!(handed.len(), 2 * BATCH_SIZE);
    assert_eq!(batcher.waiting(), 5);
    let last = batcher.finish().unwrap();
    assert_eq!(last.len(), 5);
    handed.extend(last);
    for (i, e) in handed.iter().enumerate() {
        assert_eq!(e.path(), format!("f{}", i));
    }
    assert!(Batcher::new().finish().is_none());
}

#[test]
fn strategies_are_picked_by_name() {
    assert_eq!(get_strategy(None), StrategyKind::Extension);
    assert_eq!(get_strategy(Some("extension")), StrategyKind::Extension);
    assert_eq!(get_strategy(Some("date")), StrategyKind::Date);
    assert_eq!(get_strategy(Some("type")), StrategyKind::Type);
    assert_eq!(get_strategy(Some("size")), StrategyKind::Size);
    assert_eq!(get_strategy(Some("colour")), StrategyKind::Extension);
}

#[test]
fn moves_are_grouped_by_where_they_go() {
    let mv = |source: &str, dir: &[&str]| Move {
        source: source.to_string(),
        target_dir: dir.iter().map(|s| s.to_string()).collect(),
    };
    let moves = vec![
        mv("a.jpg", &["images", "jpg"]),
        mv("b.rs", &["rs"]),
        mv("c.jpg", &["images", "jpg"]),
        mv("d.png", &["images", "png"]),
        mv("e.rs", &["rs"]),
    ];
    let groups = group_moves(&moves);
    let listed: Vec<(String, Vec<&str>)> = groups
        .iter()
        .map(|g| (g.target_dir.join("/"), g.sources.iter().map(|s| s.as_str()).collect()))
        .collect();
    assert_eq!(
        listed,
        vec![
            ("images/jpg".to_string(), vec!["a.jpg", "c.jpg"]),
            ("rs".to_string(), vec!["b.rs", "e.rs"]),
            ("images/png".to_string(), vec!["d.png"]),
        ]
    );
    assert!(group_moves(&Vec::new()).is_empty());
    assert!(same_texts(&vec!["a".to_string()], &vec!["a".to_string()]));
    assert!(!same_texts(&vec!["a".to_string()], &vec!["b".to_string()]));
    assert!(!same_texts(&vec!["a".to_string()], &Vec::new()));
}

#[test]
fn time_stamps_are_written_in_utc() {
    assert_eq!(fmt_ts_required(0), "1970-01-01T00:00:00Z");
    assert_eq!(fmt_ts_required(86_400), "1970-01-02T00:00:00Z");
    assert_eq!(fmt_ts_required(1_700_000_000), "2023-11-14T22:13:20Z");
    assert_eq!(fmt_ts_opt(0), None);
    assert_eq!(fmt_ts_opt(1).as_deref(), Some("1970-01-01T00:00:01Z"));
    // a time stamp beyond the calendar
    assert_eq!(fmt_ts_required(i64::MAX as u64), "1970-01-01T00:00:00Z");
    assert_eq!(fmt_ts_opt(i64::MAX as u64), None);
    // the highest bit makes the number negative
    assert_eq!(to_signed(u64::MAX), -1);
    assert_eq!(to_signed(1 << 63), i64::MIN);
    assert_eq!(to_signed(5), 5);
    assert_eq!(fmt_ts_required(u64::MAX), "1969-12-31T23:59:59Z");
}

#[test]
fn entries_are_written_out() {
    let md = EntryMetadata {
        size: 10,
        modified: 86_400,
        accessed: 0,
        created: 1,
        is_dir: false,
        is_file: true,
        is_symlink: false,
        permissions: 0o100644,
        uid: 1,
        gid: 2,
    };
    let e = to_serializable("d/.hidden.rs", Some(md), facts(".hidden.rs"), Some(".M".to_string()));
    assert_eq!(e.path, "d/.hidden.rs");
    assert_eq!(e.name, ".hidden.rs");
    assert_eq!(e.extension.as_deref(), Some("rs"));
    assert_eq!(e.file_type, "file");
    assert_eq!(e.size_bytes, 10);
    assert_eq!(e.modified, "1970-01-02T00:00:00Z");
    assert_eq!(e.created.as_deref(), Some("1970-01-01T00:00:01Z"));
    assert_eq!(e.accessed, None);
    assert_eq!(e.mode_octal, "0644");
    assert_eq!(e.owner_user.as_deref(), Some("u"));
    assert_eq!(e.owner_group, None);
    assert_eq!((e.inode, e.hard_links), (Some(7), Some(1)));
    assert_eq!(e.symlink_target, None);
    assert!(e.is_hidden);
    assert_eq!(e.git_status.as_deref(), Some(".M"));

    let link = EntryMetadata { is_symlink: true, is_dir: true, ..md };
    let e = to_serializable("l", Some(link), facts("l"), None);
    assert_eq!(e.file_type, "symlink");
    assert_eq!(e.symlink_target.as_deref(), Some("/read"));
    assert!(!e.is_hidden);
    let mut recorded = facts("l");
    recorded.recorded_target = Some("/recorded".to_string());
    let e = to_serializable("l", Some(link), recorded, None);
    assert_eq!(e.symlink_target.as_deref(), Some("/recorded"));

    let e = to_serializable("x", None, facts(""), None);
    assert_eq!(e.file_type, "other");
    assert_eq!(e.mode_octal, "0000");
    assert_eq!(e.modified, "1970-01-01T00:00:00Z");
    assert!(!e.is_hidden);
    assert_eq!(file_type_of(&EntryMetadata { is_dir: true, ..EntryMetadata::default() }), "dir");
    assert!(is_hidden(".git") && !is_hidden("git") && !is_hidden(""));
}

#[test]
fn the_configured_format_holds_where_the_command_line_names_none() {
    let none = FormatFlags {
        fuzzy: false,
        long: false,
        tree: false,
        table: false,
        grid: false,
        sizemap: false,
        timeline: false,
        git: false,
        recursive: false,
    };
    assert_eq!(resolve_formats(none, "default"), none);
    assert_eq!(resolve_formats(none, "long"), FormatFlags { long: true, ..none });
    assert_eq!(resolve_formats(none, "tree"), FormatFlags { tree: true, ..none });
    assert_eq!(resolve_formats(none, "table"), FormatFlags { table: true, ..none });
    assert_eq!(resolve_formats(none, "grid"), FormatFlags { grid: true, ..none });
    assert_eq!(resolve_formats(none, "sizemap"), FormatFlags { sizemap: true, ..none });
    assert_eq!(resolve_formats(none, "timeline"), FormatFlags { timeline: true, ..none });
    assert_eq!(resolve_formats(none, "git"), FormatFlags { git: true, ..none });
    assert_eq!(resolve_formats(none, "recursive"), FormatFlags { recursive: true, ..none });
    // the fuzzy format is never a default
    assert_eq!(resolve_formats(none, "fuzzy"), none);
    let tree = FormatFlags { tree: true, ..none };
    assert_eq!(resolve_formats(tree, "long"), tree);
    let fuzzy = FormatFlags { fuzzy: true, ..none };
    assert_eq!(resolve_formats(fuzzy, "long"), fuzzy);
    let both = FormatFlags { git: true, grid: true, ..none };
    assert_eq!(resolve_formats(both, "sizemap"), both);
}

#[test]
fn the_command_line_goes_before_the_configuration() {
    assert_eq!(output_mode_of(true, true, true, true), OutputMode::Json { pretty: true });
    assert_eq!(output_mode_of(true, false, false, false), OutputMode::Json { pretty: false });
    assert_eq!(output_mode_of(false, true, true, true), OutputMode::Ndjson);
    assert_eq!(output_mode_of(false, false, true, false), OutputMode::Csv);
    assert_eq!(output_mode_of(false, false, false, true), OutputMode::Human);
    assert_eq!(depth_in_force(Some("4"), Some(3)), Some(4));
    assert_eq!(depth_in_force(Some("0"), Some(3)), Some(0));
    assert_eq!(depth_in_force(Some("deep"), Some(3)), Some(3));
    assert_eq!(depth_in_force(Some("-1"), None), None);
    assert_eq!(depth_in_force(None, Some(3)), Some(3));
    assert_eq!(depth_in_force(None, None), None);
    assert!(icons_in_force(true, true, false));
    assert!(icons_in_force(false, false, true));
    assert!(!icons_in_force(false, true, true));
    assert!(!icons_in_force(false, false, false));
    assert!(no_dotfiles_in_force(true, false, false, true));
    assert!(!no_dotfiles_in_force(true, false, false, false));
    assert!(!no_dotfiles_in_force(true, true, false, true));
    assert!(!no_dotfiles_in_force(true, false, true, true));
    assert!(!no_dotfiles_in_force(false, false, false, true));
}
