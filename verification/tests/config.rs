use lla::config::{
    clone_shortcuts, default_grid_max_width, default_ignore_patterns, default_permission_format,
    default_theme_name, depth_from, known_format, known_permission_format, known_sort, plugin_file_names,
    read_depth, read_limit, read_truth, Config, FilterConfig, FormatterConfig, FuzzyConfig,
    GridFormatterConfig, ListerConfig, LongFormatterConfig, PluginsProbe, RecursiveConfig, SetFacts,
    ShortcutCommand, SizeMapConfig, SortConfig, TreeFormatterConfig,
};
use lla::error::{ConfigErrorKind, LlaError};

fn fresh() -> Config {
    Config::with_plugins_dir("/home/u/.config/lla/plugins".to_string())
}

fn probe(dir_exists: bool, found: &[bool]) -> PluginsProbe {
    PluginsProbe { dir_exists, plugin_found: found.to_vec() }
}

fn facts() -> SetFacts {
    SetFacts { dir_created: true, themes: None }
}

fn shortcut(plugin: &str, action: &str) -> ShortcutCommand {
    ShortcutCommand {
        plugin_name: plugin.to_string(),
        action: action.to_string(),
        description: Some("does things".to_string()),
    }
}

fn invalid_value(r: Result<(), LlaError>) -> (String, String) {
    match r {
        Err(LlaError::Config(ConfigErrorKind::InvalidValue(key, why))) => (key, why),
        other => panic!("an invalid value was expected, not {:?}", other),
    }
}

fn validation_error(r: Result<(), LlaError>) -> String {
    match r {
        Err(LlaError::Config(ConfigErrorKind::ValidationError(what))) => what,
        other => panic!("a validation error was expected, not {:?}", other),
    }
}

fn invalid_path(r: Result<(), LlaError>) -> String {
    match r {
        Err(LlaError::Config(ConfigErrorKind::InvalidPath(what))) => what,
        other => panic!("an invalid path was expected, not {:?}", other),
    }
}

#[test]
fn a_fresh_configuration_has_the_defaults() {
    let c = fresh();
    assert_eq!(c.default_sort, "name");
    assert_eq!(c.default_format, "default");
    assert!(c.enabled_plugins.is_empty());
    assert_eq!(c.plugins_dir, "/home/u/.config/lla/plugins");
    assert_eq!(c.default_depth, Some(3));
    assert!(!c.show_icons);
    assert!(!c.include_dirs);
    assert_eq!(c.sort, SortConfig { dirs_first: false, case_sensitive: false, natural: true });
    assert_eq!(c.filter, FilterConfig { case_sensitive: false, no_dotfiles: false });
    assert_eq!(c.formatters.tree, TreeFormatterConfig { max_lines: Some(20_000) });
    assert_eq!(c.formatters.grid, GridFormatterConfig { ignore_width: false, max_width: 200 });
    assert_eq!(
        c.formatters.long,
        LongFormatterConfig { hide_group: false, relative_dates: false }
    );
    assert_eq!(c.listers.recursive, RecursiveConfig { max_entries: Some(20_000) });
    assert_eq!(
        c.listers.fuzzy.ignore_patterns,
        vec!["node_modules", "target", ".git", ".idea", ".vscode"]
    );
    assert!(c.shortcuts.is_empty());
    assert_eq!(c.theme, "default");
    assert_eq!(c.permission_format, "symbolic");
    assert_eq!(c.get_theme(), "default");
}

#[test]
fn the_default_configuration_keeps_plugins_below_the_config_directory() {
    let c = Config::new();
    assert!(c.plugins_dir.ends_with("plugins"));
    assert!(c.plugins_dir.contains("lla"));
    assert_eq!(c.default_sort, "name");
    let d = Config::default();
    assert_eq!(d.plugins_dir, c.plugins_dir);
}

#[test]
fn the_parts_have_their_defaults() {
    assert_eq!(default_grid_max_width(), 200);
    assert_eq!(default_theme_name(), "default");
    assert_eq!(default_permission_format(), "symbolic");
    assert_eq!(default_ignore_patterns().len(), 5);
    assert_eq!(TreeFormatterConfig::default().max_lines, Some(20_000));
    assert_eq!(GridFormatterConfig::default().max_width, 200);
    assert_eq!(SizeMapConfig::default(), SizeMapConfig {});
    assert!(!LongFormatterConfig::default().hide_group);
    assert_eq!(FormatterConfig::default().grid.max_width, 200);
    assert_eq!(RecursiveConfig::default().max_entries, Some(20_000));
    assert_eq!(FuzzyConfig::default().ignore_patterns[1], "target");
    assert_eq!(ListerConfig::default().fuzzy.ignore_patterns.len(), 5);
    assert!(SortConfig::default().natural);
    assert!(!FilterConfig::default().no_dotfiles);
}

#[test]
fn a_copy_holds_what_was_copied() {
    let mut c = fresh();
    c.add_shortcut("s".to_string(), shortcut("p", "a")).unwrap();
    c.enable_plugin("git_status");
    let d = c.clone();
    assert_eq!(d.enabled_plugins, vec!["git_status"]);
    assert_eq!(d.shortcuts.len(), 1);
    assert_eq!(d.shortcuts[0].0, "s");
    assert_eq!(d.shortcuts[0].1.plugin_name, "p");
    assert_eq!(d.shortcuts[0].1.description.as_deref(), Some("does things"));
    assert_eq!(d.listers.fuzzy.ignore_patterns, c.listers.fuzzy.ignore_patterns);
    assert_eq!(clone_shortcuts(&c.shortcuts).len(), 1);
}

#[test]
fn a_fresh_configuration_is_valid_where_its_directory_exists() {
    assert!(fresh().validate(&probe(true, &[])).is_ok());
    assert_eq!(
        invalid_path(fresh().validate(&probe(false, &[]))),
        "Plugins directory does not exist: /home/u/.config/lla/plugins"
    );
}

#[test]
fn validation_reports_the_first_broken_rule() {
    let mut c = fresh();
    c.default_sort = "colour".to_string();
    c.default_format = "wide".to_string();
    assert_eq!(
        invalid_value(c.validate(&probe(false, &[]))),
        (
            "default_sort".to_string(),
            "Invalid sort value: colour. Must be one of: name, size, date".to_string()
        )
    );
    c.default_sort = "date".to_string();
    assert_eq!(
        invalid_value(c.validate(&probe(false, &[]))),
        (
            "default_format".to_string(),
            "Invalid format value: wide. Must be one of: default, long, tree, grid, git, timeline, sizemap, table, fuzzy".to_string()
        )
    );
    c.default_format = "fuzzy".to_string();
    c.default_depth = Some(0);
    c.formatters.tree.max_lines = Some(100_001);
    assert!(invalid_path(c.validate(&probe(false, &[]))).starts_with("Plugins directory"));
    assert_eq!(
        invalid_value(c.validate(&probe(true, &[]))),
        ("default_depth".to_string(), "Depth must be greater than 0 or None".to_string())
    );
    c.default_depth = None;
    assert_eq!(
        invalid_value(c.validate(&probe(true, &[]))),
        (
            "formatters.tree.max_lines".to_string(),
            "Tree formatter max lines should not exceed 100,000".to_string()
        )
    );
    c.formatters.tree.max_lines = Some(100_000);
    c.listers.recursive.max_entries = Some(100_001);
    assert_eq!(
        invalid_value(c.validate(&probe(true, &[]))),
        (
            "listers.recursive.max_entries".to_string(),
            "Recursive lister max entries should not exceed 100,000".to_string()
        )
    );
    c.listers.recursive.max_entries = None;
    c.formatters.tree.max_lines = None;
    assert!(c.validate(&probe(true, &[])).is_ok());
}

#[test]
fn validation_wants_every_enabled_plugin_installed() {
    let mut c = fresh();
    c.enable_plugin("one");
    c.enable_plugin("two");
    assert!(c.validate(&probe(true, &[true, true])).is_ok());
    assert_eq!(
        validation_error(c.validate(&probe(true, &[true, false]))),
        "Enabled plugin not found: two"
    );
    assert_eq!(
        validation_error(c.validate(&probe(true, &[false, false]))),
        "Enabled plugin not found: one"
    );
    // a plugin without an answer counts as missing
    assert_eq!(validation_error(c.validate(&probe(true, &[true]))), "Enabled plugin not found: two");
}

#[test]
fn validation_wants_complete_shortcuts() {
    let mut c = fresh();
    c.shortcuts.push(("ok".to_string(), shortcut("p", "a")));
    c.shortcuts.push(("bad".to_string(), shortcut("p", "")));
    c.shortcuts.push(("".to_string(), shortcut("p", "a")));
    assert_eq!(
        validation_error(c.validate(&probe(true, &[]))),
        "Action cannot be empty for shortcut: bad"
    );
    c.shortcuts[1].1.plugin_name = String::new();
    assert_eq!(
        validation_error(c.validate(&probe(true, &[]))),
        "Plugin name cannot be empty for shortcut: bad"
    );
    c.shortcuts.remove(1);
    assert_eq!(validation_error(c.validate(&probe(true, &[]))), "Shortcut name cannot be empty");
    c.shortcuts.remove(1);
    assert!(c.validate(&probe(true, &[])).is_ok());
}

#[test]
fn plugins_are_enabled_once_and_disabled_everywhere() {
    let mut c = fresh();
    assert!(c.enable_plugin("a"));
    assert!(c.enable_plugin("b"));
    assert!(!c.enable_plugin("a"));
    assert_eq!(c.enabled_plugins, vec!["a", "b"]);
    c.enabled_plugins.push("a".to_string());
    c.disable_plugin("a");
    assert_eq!(c.enabled_plugins, vec!["b"]);
    c.disable_plugin("zzz");
    assert_eq!(c.enabled_plugins, vec!["b"]);
}

#[test]
fn shortcuts_are_bound_found_and_removed() {
    let mut c = fresh();
    assert!(c.get_shortcut("s").is_none());
    c.add_shortcut("s".to_string(), shortcut("first", "run")).unwrap();
    c.add_shortcut("t".to_string(), shortcut("second", "walk")).unwrap();
    assert_eq!(c.get_shortcut("s").unwrap().plugin_name, "first");
    // binding a name again replaces what it was bound to
    c.add_shortcut("s".to_string(), shortcut("third", "fly")).unwrap();
    assert_eq!(c.shortcuts.len(), 2);
    assert_eq!(c.get_shortcut("s").unwrap().action, "fly");
    assert_eq!(c.get_shortcut("t").unwrap().action, "walk");
    assert_eq!(c.shortcut_slot("t"), Some(1));
    c.remove_shortcut("s");
    assert!(c.get_shortcut("s").is_none());
    assert_eq!(c.get_shortcut("t").unwrap().plugin_name, "second");
    c.remove_shortcut("s");
    assert_eq!(c.shortcuts.len(), 1);
}

#[test]
fn incomplete_shortcuts_are_refused() {
    let mut c = fresh();
    assert_eq!(
        validation_error(c.add_shortcut(String::new(), shortcut("", ""))),
        "Shortcut name cannot be empty"
    );
    assert_eq!(
        validation_error(c.add_shortcut("s".to_string(), shortcut("", ""))),
        "Plugin name cannot be empty"
    );
    assert_eq!(
        validation_error(c.add_shortcut("s".to_string(), shortcut("p", ""))),
        "Action cannot be empty"
    );
    assert!(c.shortcuts.is_empty());
}

#[test]
fn plugins_are_looked_for_under_six_names() {
    assert_eq!(
        plugin_file_names("git"),
        vec!["libgit.dylib", "libgit.so", "git.dll", "git.dylib", "git.so", "git"]
    );
}

#[test]
fn settings_are_changed_by_key() {
    let mut c = fresh();
    c.set_value("default_sort", "size", &facts()).unwrap();
    c.set_value("default_format", "tree", &facts()).unwrap();
    c.set_value("show_icons", "true", &facts()).unwrap();
    c.set_value("include_dirs", "true", &facts()).unwrap();
    c.set_value("default_depth", "7", &facts()).unwrap();
    c.set_value("sort.dirs_first", "true", &facts()).unwrap();
    c.set_value("sort.case_sensitive", "true", &facts()).unwrap();
    c.set_value("sort.natural", "false", &facts()).unwrap();
    c.set_value("filter.case_sensitive", "true", &facts()).unwrap();
    c.set_value("filter.no_dotfiles", "true", &facts()).unwrap();
    c.set_value("formatters.tree.max_lines", "100000", &facts()).unwrap();
    c.set_value("listers.recursive.max_entries", "+12", &facts()).unwrap();
    c.set_value("theme", "dark", &facts()).unwrap();
    c.set_value("permission_format", "octal", &facts()).unwrap();
    c.set_value("plugins_dir", "/tmp/p", &facts()).unwrap();
    assert_eq!(c.default_sort, "size");
    assert_eq!(c.default_format, "tree");
    assert!(c.show_icons && c.include_dirs);
    assert_eq!(c.default_depth, Some(7));
    assert_eq!(c.sort, SortConfig { dirs_first: true, case_sensitive: true, natural: false });
    assert_eq!(c.filter, FilterConfig { case_sensitive: true, no_dotfiles: true });
    assert_eq!(c.formatters.tree.max_lines, Some(100_000));
    assert_eq!(c.listers.recursive.max_entries, Some(12));
    assert_eq!(c.theme, "dark");
    assert_eq!(c.permission_format, "octal");
    assert_eq!(c.plugins_dir, "/tmp/p");
    c.set_value("default_depth", "NULL", &facts()).unwrap();
    assert_eq!(c.default_depth, None);
}

#[test]
fn values_that_a_setting_does_not_take_are_refused() {
    let mut c = fresh();
    let why = |r| invalid_value(r).1;
    assert_eq!(why(c.set_value("default_sort", "x", &facts())), "must be one of: name, size, date");
    assert_eq!(
        why(c.set_value("default_format", "x", &facts())),
        "must be one of: default, long, tree, grid, git, timeline, sizemap, table, fuzzy"
    );
    assert_eq!(why(c.set_value("show_icons", "yes", &facts())), "must be true or false");
    assert_eq!(why(c.set_value("sort.natural", "True", &facts())), "must be true or false");
    assert_eq!(
        why(c.set_value("default_depth", "deep", &facts())),
        "must be a positive number or null"
    );
    assert_eq!(why(c.set_value("default_depth", "0", &facts())), "must be greater than 0 or null");
    assert_eq!(why(c.set_value("default_depth", "-1", &facts())), "must be a positive number or null");
    assert_eq!(why(c.set_value("formatters.tree.max_lines", "", &facts())), "must be a number");
    assert_eq!(
        why(c.set_value("formatters.tree.max_lines", "100001", &facts())),
        "should not exceed 100,000"
    );
    assert_eq!(
        why(c.set_value("listers.recursive.max_entries", "99999999999999999999999", &facts())),
        "must be a number"
    );
    assert_eq!(
        why(c.set_value("permission_format", "numeric", &facts())),
        "must be one of: symbolic, octal, binary, numeric, verbose, compact"
    );
    assert_eq!(
        invalid_value(c.set_value("no.such.key", "1", &facts())),
        ("no.such.key".to_string(), "unknown configuration key: no.such.key".to_string())
    );
    assert_eq!(invalid_value(c.set_value("sort", "1", &facts())).0, "sort");
    // nothing has changed
    assert_eq!(c.default_sort, "name");
    assert_eq!(c.default_depth, Some(3));
    assert_eq!(c.formatters.tree.max_lines, Some(20_000));
    assert_eq!(c.permission_format, "symbolic");
}

#[test]
fn a_theme_must_be_installed_where_themes_can_be_listed() {
    let mut c = fresh();
    let known = SetFacts {
        dir_created: true,
        themes: Some(vec!["default".to_string(), "dark".to_string()]),
    };
    assert_eq!(
        invalid_value(c.set_value("theme", "neon", &known)),
        (
            "theme".to_string(),
            "Theme 'neon' not found. Available themes: default, dark".to_string()
        )
    );
    assert_eq!(c.theme, "default");
    c.set_value("theme", "dark", &known).unwrap();
    assert_eq!(c.theme, "dark");
    c.set_value("theme", "neon", &facts()).unwrap();
    assert_eq!(c.theme, "neon");
}

#[test]
fn the_plugins_directory_must_have_been_made() {
    let mut c = fresh();
    let failed = SetFacts { dir_created: false, themes: None };
    assert_eq!(
        invalid_path(c.set_value("plugins_dir", "/root/x", &failed)),
        "Failed to create directory: /root/x"
    );
    assert_eq!(c.plugins_dir, "/home/u/.config/lla/plugins");
}

#[test]
fn names_of_orders_and_formats_are_known() {
    assert!(known_sort("name") && known_sort("size") && known_sort("date"));
    assert!(!known_sort("Name") && !known_sort(""));
    for f in ["default", "long", "tree", "grid", "git", "timeline", "sizemap", "table", "fuzzy"] {
        assert!(known_format(f));
    }
    assert!(!known_format("recursive"));
    for f in ["symbolic", "octal", "binary", "verbose", "compact"] {
        assert!(known_permission_format(f));
    }
    assert!(!known_permission_format("numeric"));
}

#[test]
fn values_are_read_as_truth_limit_or_depth() {
    assert_eq!(read_truth("k", "true").unwrap(), true);
    assert_eq!(read_truth("k", "false").unwrap(), false);
    assert!(read_truth("k", " true").is_err());
    assert_eq!(read_limit("k", "0").unwrap(), 0);
    assert_eq!(read_limit("k", "100000").unwrap(), 100_000);
    assert!(read_limit("k", "100001").is_err());
    assert_eq!(read_depth("k", "Null").unwrap(), None);
    assert_eq!(depth_from("k", "NULL", "null").unwrap(), None);
    assert_eq!(depth_from("k", "7", "7").unwrap(), Some(7));
    assert!(depth_from("k", "null", "NULL").is_err());
    assert!(depth_from("k", "0", "0").is_err());
    assert_eq!(read_depth("k", "12").unwrap(), Some(12));
    assert!(read_depth("k", "0").is_err());
}
