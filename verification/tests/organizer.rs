use lla::organizer::config::{
    default_colors, default_date_enabled, default_date_format, default_date_group_by,
    default_extension_create_nested, default_extension_enabled, default_ignore_extensions,
    default_ignore_patterns, default_size_enabled, default_size_ranges, default_type_categories,
    default_type_enabled, DateStrategyConfig, ExtensionStrategyConfig, IgnoreConfig,
    OrganizerConfig, SizeRange, SizeStrategyConfig, TypeStrategyConfig,
};
use lla::organizer::strategies::{
    group_of_extension, organize, pad_number, DateStrategy, Day, ExtensionStrategy, FileFacts,
    OrganizationStrategy, SizeStrategy, TypeStrategy,
};

fn file(path: &str, ext: Option<&str>, size: u64, modified: Option<Day>) -> FileFacts {
    FileFacts {
        path: path.to_string(),
        is_dir: false,
        extension: ext.map(|e| e.to_string()),
        size,
        modified,
    }
}

fn dir(path: &str) -> FileFacts {
    FileFacts { path: path.to_string(), is_dir: true, extension: None, size: 0, modified: None }
}

#[test]
fn the_organizer_has_its_defaults() {
    assert!(default_extension_enabled() && default_extension_create_nested());
    assert!(default_date_enabled() && default_type_enabled() && default_size_enabled());
    assert_eq!(default_date_format(), "%Y/%m/%d");
    assert_eq!(default_date_group_by(), "month");
    assert_eq!(default_ignore_patterns(), vec![".git", "node_modules", "target"]);
    assert_eq!(default_ignore_extensions(), vec![".tmp", ".bak"]);
    let colors = default_colors();
    assert_eq!(colors.len(), 4);
    assert_eq!(colors[0], ("success".to_string(), "bright_green".to_string()));
    assert_eq!(colors[3], ("path".to_string(), "bright_yellow".to_string()));
    let categories = default_type_categories();
    assert_eq!(categories.len(), 5);
    assert_eq!(categories[0].0, "documents");
    assert_eq!(categories[0].1, vec!["pdf", "doc", "docx", "txt", "md"]);
    assert_eq!(categories[4].1, vec!["zip", "rar", "7z", "tar", "gz"]);
    let ranges = default_size_ranges();
    let listed: Vec<(&str, Option<u64>)> =
        ranges.iter().map(|r| (r.name.as_str(), r.max_bytes)).collect();
    assert_eq!(
        listed,
        vec![
            ("tiny", Some(102400)),
            ("small", Some(1048576)),
            ("medium", Some(104857600)),
            ("large", Some(1073741824)),
            ("huge", None),
        ]
    );
    let c = OrganizerConfig::default();
    assert!(c.extension.enabled && c.date.enabled && c.type_strategy.enabled && c.size.enabled);
    assert_eq!(c.ignore.patterns.len(), 3);
    assert_eq!(IgnoreConfig::default().extensions.len(), 2);
    assert_eq!(DateStrategyConfig::default().group_by, "month");
    assert_eq!(TypeStrategyConfig::default().categories.len(), 5);
    assert_eq!(SizeStrategyConfig::default().ranges.len(), 5);
    assert_eq!(
        ExtensionStrategyConfig::default(),
        ExtensionStrategyConfig { enabled: true, create_nested: true }
    );
}

#[test]
fn sizes_fall_into_the_first_range_that_takes_them() {
    let s = SizeStrategy::new(SizeStrategyConfig::default());
    assert_eq!(s.get_size_category(0).as_deref(), Some("tiny"));
    assert_eq!(s.get_size_category(102400).as_deref(), Some("tiny"));
    assert_eq!(s.get_size_category(102401).as_deref(), Some("small"));
    assert_eq!(s.get_size_category(1048577).as_deref(), Some("medium"));
    assert_eq!(s.get_size_category(1073741824).as_deref(), Some("large"));
    assert_eq!(s.get_size_category(u64::MAX).as_deref(), Some("huge"));
    let bounded = SizeStrategy::new(SizeStrategyConfig {
        enabled: true,
        ranges: vec![
            SizeRange { name: "b".to_string(), max_bytes: Some(10) },
            SizeRange { name: "a".to_string(), max_bytes: Some(5) },
        ],
    });
    assert_eq!(bounded.get_size_category(3).as_deref(), Some("b"));
    assert_eq!(bounded.get_size_category(11), None);
    assert_eq!(bounded.target(&file("f", None, 7, None)), Some(vec!["b".to_string()]));
    assert_eq!(bounded.target(&file("f", None, 70, None)), None);
}

#[test]
fn extensions_are_nested_under_their_group() {
    let nested = ExtensionStrategy::new(ExtensionStrategyConfig { enabled: true, create_nested: true });
    assert_eq!(nested.target_for("JPG"), vec!["images", "jpg"]);
    assert_eq!(nested.target_for("mkv"), vec!["videos", "mkv"]);
    assert_eq!(nested.target_for("ogg"), vec!["audio", "ogg"]);
    assert_eq!(nested.target_for("rtf"), vec!["documents", "rtf"]);
    assert_eq!(nested.target_for("7z"), vec!["archives", "7z"]);
    assert_eq!(nested.target_for("rs"), vec!["rs"]);
    let flat = ExtensionStrategy::new(ExtensionStrategyConfig { enabled: true, create_nested: false });
    assert_eq!(flat.target_for("JPG"), vec!["jpg"]);
    assert_eq!(nested.target_for_lower("jpg".to_string()), vec!["images", "jpg"]);
    assert_eq!(nested.target_for_lower("JPG".to_string()), vec!["JPG"]);
    assert_eq!(flat.target_for_lower("jpg".to_string()), vec!["jpg"]);
    assert_eq!(group_of_extension("bmp"), Some("images"));
    assert_eq!(group_of_extension("BMP"), None);
    assert_eq!(group_of_extension("exe"), None);
    assert_eq!(nested.target(&file("a", None, 0, None)), None);
    assert_eq!(
        nested.target(&file("a.PNG", Some("PNG"), 0, None)),
        Some(vec!["images".to_string(), "png".to_string()])
    );
}

#[test]
fn types_are_looked_up_by_extension() {
    let t = TypeStrategy::new(TypeStrategyConfig::default());
    assert_eq!(t.extension_to_category.len(), 23);
    assert_eq!(t.get_category("pdf").as_deref(), Some("documents"));
    assert_eq!(t.get_category("PNG").as_deref(), Some("images"));
    assert_eq!(t.get_category("flac").as_deref(), Some("audio"));
    assert_eq!(t.get_category("rs"), None);
    assert_eq!(t.category_for("png").as_deref(), Some("images"));
    assert_eq!(t.category_for("PNG"), None);
    assert_eq!(t.get_category(""), None);
    // a later category takes an extension over
    let twice = TypeStrategy::new(TypeStrategyConfig {
        enabled: true,
        categories: vec![
            ("first".to_string(), vec!["x".to_string(), "y".to_string()]),
            ("second".to_string(), vec!["x".to_string()]),
        ],
    });
    assert_eq!(twice.get_category("x").as_deref(), Some("second"));
    assert_eq!(twice.get_category("y").as_deref(), Some("first"));
    assert_eq!(t.target(&file("a.mp4", Some("mp4"), 0, None)), Some(vec!["videos".to_string()]));
    assert_eq!(t.target(&file("a", None, 0, None)), None);
}

#[test]
fn dates_are_grouped_by_year_month_or_day() {
    let day = Day { year: 2024, month: 3, day: 9 };
    let by = |group: &str| {
        DateStrategy::new(DateStrategyConfig {
            enabled: true,
            format: "%Y/%m/%d".to_string(),
            group_by: group.to_string(),
        })
    };
    assert_eq!(by("year").format_date_path(day), vec!["2024"]);
    assert_eq!(by("month").format_date_path(day), vec!["2024", "03"]);
    assert_eq!(by("day").format_date_path(day), vec!["2024", "03", "09"]);
    assert_eq!(by("week").format_date_path(day), vec!["2024", "03"]);
    assert_eq!(
        by("day").format_date_path(Day { year: 987, month: 12, day: 31 }),
        vec!["0987", "12", "31"]
    );
    assert_eq!(pad_number(7, 3), "007");
    assert_eq!(pad_number(1234, 2), "34");
    assert_eq!(pad_number(5, 0), "");
    assert_eq!(by("day").target(&file("f", None, 0, None)), None);
}

#[test]
fn files_are_planned_and_directories_stay() {
    let files = vec![
        file("d/a.JPG", Some("JPG"), 10, None),
        dir("d/sub"),
        file("d/noext", None, 10, None),
        file("d/b.rs", Some("rs"), 10, None),
    ];
    let nested = ExtensionStrategy::new(ExtensionStrategyConfig { enabled: true, create_nested: true });
    let moves = organize(&nested, &files);
    let listed: Vec<(&str, Vec<&str>)> = moves
        .iter()
        .map(|m| (m.source.as_str(), m.target_dir.iter().map(|s| s.as_str()).collect()))
        .collect();
    assert_eq!(listed, vec![("d/a.JPG", vec!["images", "jpg"]), ("d/b.rs", vec!["rs"])]);
    let off = ExtensionStrategy::new(ExtensionStrategyConfig { enabled: false, create_nested: true });
    assert!(organize(&off, &files).is_empty());
    assert!(!off.enabled());
    let sizes = SizeStrategy::new(SizeStrategyConfig::default());
    assert_eq!(organize(&sizes, &files).len(), 3);
    assert!(organize(&sizes, &Vec::new()).is_empty());
}
