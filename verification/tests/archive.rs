use lla::archive::{
    add_directories, has_archive_ending, insert_rising, is_archive_path_str, normalize_internal_path, note_parent,
    root_entry, synthesize_directory_entries, tar_entry, zip_entry, ArchiveEntry, TarHeader,
};
use lla::git::{find_git_root, get_git_status_map, status_of_line};

fn header() -> TarHeader {
    TarHeader {
        is_dir: false,
        is_symlink: false,
        size: Some(12),
        mtime: Some(1700),
        mode: Some(0o600),
        uid: Some(1000),
        gid: Some(100),
        link_name: None,
    }
}

fn paths(entries: &[ArchiveEntry]) -> Vec<&str> {
    entries.iter().map(|e| e.path.as_str()).collect()
}

#[test]
fn archives_are_known_by_how_their_names_end() {
    assert!(is_archive_path_str("a.zip"));
    assert!(is_archive_path_str("A.ZIP"));
    assert!(is_archive_path_str("dir/b.tar"));
    assert!(is_archive_path_str("b.tar.gz"));
    assert!(is_archive_path_str("b.TGZ"));
    assert!(!is_archive_path_str("b.gz"));
    assert!(!is_archive_path_str("zip"));
    assert!(!is_archive_path_str("a.zip.txt"));
    assert!(!is_archive_path_str(""));
    assert!(has_archive_ending("a.zip") && has_archive_ending("a.tar.gz") && has_archive_ending(".tgz"));
    assert!(!has_archive_ending("A.ZIP") && !has_archive_ending("a.gz") && !has_archive_ending(""));
}

#[test]
fn member_paths_are_brought_into_normal_form() {
    assert_eq!(normalize_internal_path("a/b/c.txt"), "a/b/c.txt");
    assert_eq!(normalize_internal_path("a\\b\\c.txt"), "a/b/c.txt");
    assert_eq!(normalize_internal_path("./a/b"), "a/b");
    assert_eq!(normalize_internal_path("././a"), "a");
    assert_eq!(normalize_internal_path(".\\a"), "a");
    assert_eq!(normalize_internal_path("a//b///c"), "a/b/c");
    assert_eq!(normalize_internal_path("/a/b/"), "a/b");
    assert_eq!(normalize_internal_path("///"), "");
    assert_eq!(normalize_internal_path("./"), "");
    assert_eq!(normalize_internal_path(""), "");
    assert_eq!(normalize_internal_path(".//a"), "a");
    assert_eq!(normalize_internal_path("a/./b"), "a/./b");
    assert_eq!(normalize_internal_path("../a"), "../a");
    assert_eq!(normalize_internal_path(".a/"), ".a");
    assert_eq!(normalize_internal_path("dir/é//x"), "dir/é/x");
}

#[test]
fn the_root_entry_is_a_directory() {
    let e = root_entry("a.zip", "/abs/a.zip");
    assert_eq!(e.path, "a.zip");
    assert!(e.is_dir && !e.is_file && !e.is_symlink);
    assert_eq!(e.permissions, 0o755);
    assert_eq!(e.archive_source.as_deref(), Some("/abs/a.zip"));
    assert_eq!((e.size, e.modified, e.uid, e.gid), (0, 0, 0, 0));
}

#[test]
fn zip_members_are_listed_below_the_root() {
    let f = zip_entry("a.zip", "/abs/a.zip", "./docs//x.md", false, 10, None).unwrap();
    assert_eq!(f.path, "a.zip/docs/x.md");
    assert_eq!((f.size, f.permissions), (10, 0o644));
    assert!(f.is_file && !f.is_dir && !f.is_symlink);
    let d = zip_entry("a.zip", "/abs/a.zip", "docs/", true, 10, None).unwrap();
    assert_eq!(d.path, "a.zip/docs");
    assert_eq!((d.size, d.permissions), (0, 0o755));
    assert!(d.is_dir && !d.is_file);
    let l = zip_entry("a.zip", "s", "l", false, 3, Some(0o120777)).unwrap();
    assert!(l.is_symlink);
    assert_eq!(l.permissions, 0o120777);
    let m = zip_entry("a.zip", "s", "m", false, 3, Some(0o100600)).unwrap();
    assert!(!m.is_symlink);
    assert!(zip_entry("a.zip", "s", "./", true, 0, None).is_none());
    assert!(zip_entry("a.zip", "s", "", false, 0, None).is_none());
}

#[test]
fn tar_members_are_listed_below_the_root() {
    let f = tar_entry("a.tar", "/abs/a.tar", "./src/main.rs", header()).unwrap();
    assert_eq!(f.path, "a.tar/src/main.rs");
    assert_eq!((f.size, f.modified, f.permissions, f.uid, f.gid), (12, 1700, 0o600, 1000, 100));
    assert!(f.is_file);
    let d = tar_entry(
        "a.tar",
        "s",
        "src/",
        TarHeader { is_dir: true, mode: None, size: Some(99), ..header() },
    )
    .unwrap();
    assert_eq!((d.size, d.permissions), (0, 0o755));
    assert!(d.is_dir && !d.is_file);
    let l = tar_entry(
        "a.tar",
        "s",
        "l",
        TarHeader {
            is_symlink: true,
            link_name: Some("target".to_string()),
            size: None,
            mtime: None,
            mode: None,
            uid: Some(0x1_0000_0005),
            gid: None,
            ..header()
        },
    )
    .unwrap();
    assert!(l.is_symlink && !l.is_file && !l.is_dir);
    assert_eq!(l.symlink_target.as_deref(), Some("target"));
    assert_eq!((l.size, l.modified, l.permissions, l.uid, l.gid), (0, 0, 0o644, 5, 0));
    // a link name on what is no link is dropped
    let n = tar_entry("a.tar", "s", "n", TarHeader { link_name: Some("t".to_string()), ..header() })
        .unwrap();
    assert!(n.symlink_target.is_none());
    assert!(tar_entry("a.tar", "s", "/", header()).is_none());
}

#[test]
fn directories_without_an_entry_are_made_up() {
    let mut entries = vec![
        root_entry("a.zip", "s"),
        zip_entry("a.zip", "s", "z/deep/er/f.txt", false, 1, None).unwrap(),
        zip_entry("a.zip", "s", "b/g.txt", false, 1, None).unwrap(),
        zip_entry("a.zip", "s", "b", true, 0, None).unwrap(),
        zip_entry("a.zip", "s", "top.txt", false, 1, None).unwrap(),
    ];
    synthesize_directory_entries(&mut entries, "a.zip");
    assert_eq!(
        paths(&entries),
        vec![
            "a.zip",
            "a.zip/z/deep/er/f.txt",
            "a.zip/b/g.txt",
            "a.zip/b",
            "a.zip/top.txt",
            "a.zip/z",
            "a.zip/z/deep",
            "a.zip/z/deep/er",
        ]
    );
    for e in &entries[5..] {
        assert!(e.is_dir && !e.is_file);
        assert_eq!(e.permissions, 0o755);
        assert!(e.archive_source.is_none());
    }
    let before = entries.len();
    synthesize_directory_entries(&mut entries, "a.zip");
    assert_eq!(entries.len(), before);
    let mut none: Vec<ArchiveEntry> = Vec::new();
    synthesize_directory_entries(&mut none, "a.zip");
    assert!(none.is_empty());
}

#[test]
fn a_rising_list_takes_each_text_once() {
    let mut v: Vec<String> = Vec::new();
    for s in ["m", "a", "z", "m", "b", "a"] {
        insert_rising(&mut v, s.to_string());
    }
    assert_eq!(v, vec!["a", "b", "m", "z"]);
}

#[test]
fn the_nearest_directory_with_a_git_entry_is_the_root() {
    let dirs: Vec<String> = ["/w/p/src/x", "/w/p/src", "/w/p", "/w", "/"]
        .iter()
        .map(|s| s.to_string())
        .collect();
    assert_eq!(
        find_git_root(&dirs, &vec![false, false, true, true, false]),
        Some("/w/p".to_string())
    );
    assert_eq!(find_git_root(&dirs, &vec![true]), Some("/w/p/src/x".to_string()));
    assert_eq!(find_git_root(&dirs, &vec![false; 5]), None);
    assert_eq!(find_git_root(&dirs, &Vec::new()), None);
    assert_eq!(find_git_root(&Vec::new(), &vec![true]), None);
    // answers beyond the directories are not looked at
    assert_eq!(find_git_root(&dirs[..2].to_vec(), &vec![false, false, true]), None);
}

#[test]
fn status_lines_give_paths_and_states() {
    let words = |line: &str| line.split_whitespace().map(|w| w.to_string()).collect::<Vec<_>>();
    let read = |line: &str| status_of_line(line, &words(line));
    assert_eq!(
        read("1 .M N... 100644 100644 100644 abc def src/main.rs"),
        Some(("src/main.rs".to_string(), ".M".to_string()))
    );
    assert_eq!(
        read("2 R. N... 100644 100644 100644 abc def R100 new.rs\told.rs"),
        Some(("R100".to_string(), "R.".to_string()))
    );
    assert_eq!(read("? notes.txt"), Some(("notes.txt".to_string(), "??".to_string())));
    assert_eq!(read("! target/"), Some(("target/".to_string(), "!!".to_string())));
    assert_eq!(read("# branch.oid abc"), None);
    assert_eq!(read(""), None);
    assert_eq!(read("   "), None);
    assert_eq!(read("1 .M too short"), None);
    assert_eq!(read("?"), None);
    assert_eq!(read("u UU N... 1 2 3 4 a b c path"), None);
}

#[test]
fn the_status_map_joins_status_and_listed_files() {
    let status = "# branch.head main\n1 .M N... 100644 100644 100644 a b src/a.rs\n? new.txt\n! junk\n? new.txt\n";
    let listed = "src/a.rs\nsrc/b.rs\nREADME.md\nsrc/b.rs\n";
    let map = get_git_status_map(status, listed);
    let get = |p: &str| map.iter().find(|(k, _)| k == p).map(|(_, v)| v.as_str());
    assert_eq!(map.len(), 5);
    assert_eq!(get("src/a.rs"), Some(".M"));
    assert_eq!(get("new.txt"), Some("??"));
    assert_eq!(get("junk"), Some("!!"));
    assert_eq!(get("src/b.rs"), Some("."));
    assert_eq!(get("README.md"), Some("."));
    assert!(get_git_status_map("", "").is_empty());
    // a later status line replaces an earlier one
    let twice = get_git_status_map("? f\n! f\n", "f\n");
    assert_eq!(twice, vec![("f".to_string(), "!!".to_string())]);
}

#[test]
fn a_text_is_put_where_it_belongs() {
    let mut v: Vec<String> = vec!["b".to_string(), "d".to_string()];
    insert_rising(&mut v, "c".to_string());
    assert_eq!(v, vec!["b", "c", "d"]);
    insert_rising(&mut v, "a".to_string());
    assert_eq!(v, vec!["a", "b", "c", "d"]);
    insert_rising(&mut v, "e".to_string());
    assert_eq!(v, vec!["a", "b", "c", "d", "e"]);
    insert_rising(&mut v, "c".to_string());
    assert_eq!(v, vec!["a", "b", "c", "d", "e"]);
    insert_rising(&mut v, "".to_string());
    assert_eq!(v, vec!["", "a", "b", "c", "d", "e"]);
}

#[test]
fn a_climb_ends_at_the_root_and_at_the_empty_path() {
    let mut dirs: Vec<String> = vec!["a".to_string()];
    assert_eq!(note_parent(&mut dirs, None, false), None);
    assert_eq!(note_parent(&mut dirs, Some(String::new()), false), None);
    assert_eq!(note_parent(&mut dirs, Some("root".to_string()), true), None);
    assert_eq!(dirs, vec!["a"]);
    assert_eq!(note_parent(&mut dirs, Some("a/b".to_string()), false), Some("a/b".to_string()));
    assert_eq!(dirs, vec!["a", "a/b"]);
    assert_eq!(note_parent(&mut dirs, Some("a".to_string()), false), Some("a".to_string()));
    assert_eq!(dirs, vec!["a", "a/b"]);
}

#[test]
fn directories_get_an_entry_unless_they_have_one() {
    let mut entries = vec![
        root_entry("r", "s"),
        zip_entry("r", "s", "x/y/f", false, 1, None).unwrap(),
        zip_entry("r", "s", "x", true, 0, None).unwrap(),
    ];
    let dirs: Vec<String> = ["r/x", "r/x/y", "r/z"].iter().map(|s| s.to_string()).collect();
    add_directories(&mut entries, &dirs);
    assert_eq!(paths(&entries), vec!["r", "r/x/y/f", "r/x", "r/x/y", "r/z"]);
    assert!(entries[3].is_dir && entries[3].archive_source.is_none());
    assert_eq!(entries[4].permissions, 0o755);
    add_directories(&mut entries, &Vec::new());
    assert_eq!(entries.len(), 5);
    // entries with paths of one character lie below no directory
    let mut short = vec![root_entry("a", "s"), root_entry("", "s")];
    synthesize_directory_entries(&mut short, "zzz");
    assert_eq!(paths(&short), vec!["a", ""]);
}
