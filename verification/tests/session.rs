use lla::config::Config;
use lla::finder::entry::{FileEntry, MatchResult};
use lla::finder::keys::{Key, Modifiers};
use lla::finder::results::{rows_unchanged, same_positions, ResultList};
use lla::finder::screen::{available_rows, shorten_path, shown_path, BarLayout, Listing};
use lla::finder::search_bar::{bar_padding, SearchBar};
use lla::finder::session::{at_least, FuzzyLister, Outcome, Session};

const MS: u64 = 1_000_000;

fn config() -> Config {
    let mut config = Config::with_plugins_dir("plugins".to_string());
    config.listers.fuzzy.ignore_patterns = Vec::new();
    config
}

fn batch(paths: &[&str]) -> Vec<FileEntry> {
    paths.iter().map(|p| FileEntry::new(p.to_string(), 0)).collect()
}

fn session_with(paths: &[&str]) -> Session {
    let mut s = Session::new(config(), 10, 0);
    s.add_batch(batch(paths));
    s.finish_batch_check(paths.len(), true, 200 * MS);
    s
}

fn matches(paths: &[&str]) -> Vec<MatchResult> {
    paths
        .iter()
        .map(|p| MatchResult {
            score: 0,
            positions: vec![],
            entry: FileEntry::new(p.to_string(), 0),
        })
        .collect()
}

fn committed(outcome: Outcome) -> Option<String> {
    match outcome {
        Outcome::Committed(p) => Some(p),
        _ => None,
    }
}

#[test]
fn escape_cancels_without_a_selection() {
    let mut s = session_with(&["a", "b", "c"]);
    assert!(matches!(s.handle_key(Key::Esc, Modifiers::none(), 300 * MS), Outcome::Cancelled));
    let mut t = Session::new(config(), 10, 0);
    assert!(matches!(t.handle_key(Key::Esc, Modifiers::none(), 0), Outcome::Cancelled));
    let step = t.tick(Some((Key::Esc, Modifiers::none())), 500 * MS);
    assert!(matches!(step.outcome, Outcome::Cancelled));
    assert!(!step.render);
}

#[test]
fn control_c_cancels() {
    let mut s = session_with(&["a", "b", "c"]);
    assert!(matches!(s.handle_key(Key::Char('c'), Modifiers::control(), 0), Outcome::Cancelled));
    // a plain c is typed into the query
    assert!(matches!(s.handle_key(Key::Char('c'), Modifiers::none(), 0), Outcome::Continue));
    assert_eq!(s.search_bar().query(), "c");
    // escape with a modifier is no escape
    assert!(matches!(s.handle_key(Key::Esc, Modifiers::shift(), 0), Outcome::Continue));
}

#[test]
fn down_down_up_enter_commits_what_down_enter_commits() {
    let paths = ["e1", "e2", "e3", "e4", "e5"];
    let mut a = session_with(&paths);
    let mut b = session_with(&paths);
    assert_eq!(a.result_list().results().len(), 5);
    let none = Modifiers::none();
    for key in [Key::Down, Key::Down, Key::Up] {
        assert!(matches!(a.handle_key(key, none, 300 * MS), Outcome::Continue));
    }
    assert!(matches!(b.handle_key(Key::Down, none, 300 * MS), Outcome::Continue));
    let chosen_a = committed(a.handle_key(Key::Enter, none, 300 * MS));
    let chosen_b = committed(b.handle_key(Key::Enter, none, 300 * MS));
    assert_eq!(chosen_a, Some("e2".to_string()));
    assert_eq!(chosen_a, chosen_b);
}

#[test]
fn enter_on_an_empty_list_goes_on() {
    let mut s = Session::new(config(), 10, 0);
    assert!(matches!(s.handle_key(Key::Enter, Modifiers::none(), 0), Outcome::Continue));
    assert!(matches!(s.handle_key(Key::Enter, Modifiers::shift(), 0), Outcome::Continue));
}

#[test]
fn selection_stops_at_both_ends() {
    let mut s = session_with(&["a", "b"]);
    let none = Modifiers::none();
    s.handle_key(Key::Up, none, 0);
    assert_eq!(s.result_list().selected_idx(), 0);
    s.handle_key(Key::Down, none, 0);
    s.handle_key(Key::Down, none, 0);
    s.handle_key(Key::Down, none, 0);
    assert_eq!(s.result_list().selected_idx(), 1);
    assert_eq!(committed(s.handle_key(Key::Enter, none, 0)), Some("b".to_string()));
}

#[test]
fn batches_are_drained_every_hundred_milliseconds() {
    let mut s = Session::new(config(), 10, 1000 * MS);
    assert!(!s.batch_check_due(1000 * MS));
    assert!(!s.batch_check_due(1100 * MS - 1));
    assert!(s.batch_check_due(1100 * MS));
    // a clock that ran backwards counts as no time passed
    assert!(!s.batch_check_due(0));
    s.finish_batch_check(0, false, 1100 * MS);
    assert!(!s.batch_check_due(1150 * MS));
    assert!(s.batch_check_due(1200 * MS));
    // no drain while a search is waiting
    s.handle_key(Key::Char('x'), Modifiers::none(), 1200 * MS);
    assert!(!s.batch_check_due(1300 * MS));
}

#[test]
fn new_files_show_up_after_a_drain() {
    let mut s = Session::new(config(), 10, 0);
    s.add_batch(batch(&["b.txt", "a.txt"]));
    assert_eq!(s.index().len(), 2);
    assert_eq!(s.result_list().results().len(), 0);
    s.finish_batch_check(7, false, 100 * MS);
    let list = s.result_list();
    assert_eq!(list.results().len(), 2);
    assert_eq!(list.results()[0].entry.path(), "a.txt");
    assert_eq!(list.total_indexed(), 7);
    assert!(!list.indexing_complete());
    // the repaint was requested at the drain and rests for 16 ms
    assert!(!s.render_due(100 * MS));
    assert!(s.render_due(116 * MS));
}

#[test]
fn a_drain_that_adds_nothing_changes_nothing_shown() {
    let mut s = Session::new(config(), 10, 0);
    s.add_batch(Vec::new());
    s.finish_batch_check(5, true, 100 * MS);
    assert_eq!(s.result_list().total_indexed(), 0);
    assert!(!s.result_list().indexing_complete());
    assert!(!s.render_due(1000 * MS));
}

#[test]
fn typing_searches_after_fifty_milliseconds_of_rest() {
    let mut s = session_with(&["apple.txt", "banana.txt", "app.rs"]);
    let none = Modifiers::none();
    let t0 = 1000 * MS;
    s.tick(Some((Key::Char('b'), none)), t0);
    assert_eq!(s.search_bar().query(), "b");
    assert_eq!(s.result_list().results().len(), 3);
    s.tick(None, t0 + 49 * MS);
    assert_eq!(s.result_list().results().len(), 3);
    // another key press restarts the rest
    s.tick(Some((Key::Char('a'), none)), t0 + 49 * MS);
    s.tick(None, t0 + 98 * MS);
    assert_eq!(s.result_list().results().len(), 3);
    s.tick(None, t0 + 99 * MS);
    assert_eq!(s.result_list().results().len(), 1);
    assert_eq!(s.result_list().results()[0].entry.path(), "banana.txt");
    assert_eq!(s.result_list().selected_idx(), 0);
}

#[test]
fn a_search_puts_the_selection_back_on_top() {
    let mut s = session_with(&["a1", "a2", "a3"]);
    let none = Modifiers::none();
    s.handle_key(Key::Down, none, 0);
    s.handle_key(Key::Down, none, 0);
    assert_eq!(s.result_list().selected_idx(), 2);
    s.handle_key(Key::Char('a'), none, 1000 * MS);
    s.run_due_search(1050 * MS);
    assert_eq!(s.result_list().selected_idx(), 0);
    assert_eq!(s.result_list().window_start(), 0);
}

#[test]
fn repaints_are_at_least_sixteen_milliseconds_apart() {
    let mut s = session_with(&["a", "b", "c"]);
    let none = Modifiers::none();
    let t0 = 1000 * MS;
    assert!(s.take_render(t0));
    assert!(!s.take_render(t0));
    let step = s.tick(Some((Key::Down, none)), t0 + 1 * MS);
    assert!(!step.render);
    assert!(!s.tick(None, t0 + 15 * MS).render);
    // 16 ms after the last repaint but only 15 after the request
    assert!(!s.tick(None, t0 + 16 * MS).render);
    assert!(s.tick(None, t0 + 17 * MS).render);
    assert!(!s.tick(None, t0 + 40 * MS).render);
}

#[test]
fn moving_the_cursor_asks_for_a_repaint_but_for_no_search() {
    let mut s = session_with(&["a1", "a2", "a3"]);
    let none = Modifiers::none();
    s.handle_key(Key::Char('a'), none, 0);
    s.run_due_search(50 * MS);
    s.take_render(100 * MS);
    s.handle_key(Key::Down, none, 200 * MS);
    s.take_render(300 * MS);
    assert_eq!(s.result_list().selected_idx(), 1);
    assert!(!s.render_due(1000 * MS));
    // the cursor moves: the line is repainted, nothing is searched for
    s.handle_key(Key::Left, none, 1000 * MS);
    assert_eq!(s.search_bar().cursor_pos(), 0);
    assert_eq!(s.search_bar().query(), "a");
    assert!(s.render_due(1016 * MS));
    assert!(s.batch_check_due(1100 * MS));
    s.run_due_search(1050 * MS);
    s.tick(None, 1060 * MS);
    assert_eq!(s.result_list().selected_idx(), 1);
    s.handle_key(Key::Right, none, 2000 * MS);
    assert_eq!(s.search_bar().cursor_pos(), 1);
    assert!(s.batch_check_due(2100 * MS));
    s.tick(None, 2060 * MS);
    assert_eq!(s.result_list().selected_idx(), 1);
    // nothing to the right any more: nothing changes
    s.take_render(3000 * MS);
    s.handle_key(Key::Right, none, 4000 * MS);
    assert!(!s.render_due(5000 * MS));
    // a change of the text arms the search and holds the drain back
    s.handle_key(Key::Backspace, none, 6000 * MS);
    assert!(!s.batch_check_due(6040 * MS));
    s.tick(None, 6050 * MS);
    assert_eq!(s.result_list().selected_idx(), 0);
    assert!(s.batch_check_due(6200 * MS));
}

#[test]
fn a_session_over_a_filled_index_opens_with_its_entries() {
    let mut index = lla::finder::index::SearchIndex::new(config());
    index.add_entries(batch(&["b", "a"]));
    let copy = index.clone();
    assert_eq!(copy.len(), 2);
    let s = Session::from_index(copy, 5, 9);
    assert_eq!(s.index().len(), 2);
    assert_eq!(s.result_list().results().len(), 2);
    assert_eq!(s.result_list().results()[0].entry.path(), "a");
    assert!(!s.batch_check_due(9));
    // the copy is an index of its own
    index.add_entries(batch(&["c"]));
    assert_eq!(index.len(), 3);
    assert_eq!(s.index().len(), 2);
}

#[test]
fn a_lister_starts_fresh_sessions() {
    let lister = FuzzyLister::new(config());
    assert!(lister.config().listers.fuzzy.ignore_patterns.is_empty());
    let s = lister.start(5, 42);
    assert_eq!(s.index().len(), 0);
    assert_eq!(s.result_list().max_visible(), 5);
    assert!(s.search_bar().is_empty());
    assert!(!s.batch_check_due(42));
}

#[test]
fn elapsed_time_is_compared_in_nanoseconds() {
    assert!(at_least(50 * MS, 0, 50));
    assert!(!at_least(50 * MS - 1, 0, 50));
    assert!(at_least(7, 7, 0));
    assert!(!at_least(3, 9, 1));
    assert!(at_least(u64::MAX, 0, 1000));
    assert!(!at_least(u64::MAX, 0, u64::MAX));
}

#[test]
fn the_query_line_edits_at_the_cursor() {
    let mut bar = SearchBar::new();
    let none = Modifiers::none();
    assert!(bar.handle_input(Key::Char('a'), none));
    assert!(bar.handle_input(Key::Char('C'), Modifiers::shift()));
    assert!(bar.handle_input(Key::Left, none));
    assert!(bar.handle_input(Key::Char('b'), none));
    assert_eq!(bar.query(), "abC");
    assert_eq!(bar.cursor_pos(), 2);
    assert!(!bar.cursor_at_end());
    assert!(bar.handle_input(Key::Right, none));
    assert!(bar.cursor_at_end());
    assert!(!bar.handle_input(Key::Right, none));
    assert!(bar.handle_input(Key::Backspace, none));
    assert_eq!(bar.query(), "ab");
    assert!(bar.handle_input(Key::Left, none));
    assert!(bar.handle_input(Key::Left, none));
    assert!(!bar.handle_input(Key::Left, none));
    assert!(!bar.handle_input(Key::Backspace, none));
    assert_eq!(bar.query(), "ab");
    assert_eq!(bar.cursor_pos(), 0);
}

#[test]
fn the_query_line_ignores_other_keys_and_modifiers() {
    let mut bar = SearchBar::new();
    assert!(!bar.handle_input(Key::Char('a'), Modifiers::control()));
    assert!(!bar.handle_input(
        Key::Char('a'),
        Modifiers { shift: true, control: false, alt: true, extra: false }
    ));
    assert!(!bar.handle_input(Key::Other, Modifiers::none()));
    assert!(!bar.handle_input(Key::Enter, Modifiers::none()));
    assert!(bar.handle_input(Key::Char('é'), Modifiers::none()));
    assert!(bar.handle_input(Key::Char('x'), Modifiers::none()));
    assert!(!bar.handle_input(Key::Backspace, Modifiers::shift()));
    assert_eq!(bar.query(), "éx");
    assert_eq!(bar.cursor_pos(), 2);
}

#[test]
fn the_query_line_layout() {
    let mut bar = SearchBar::new();
    assert_eq!(
        bar.render(),
        BarLayout { placeholder: true, cursor_mark: false, cursor_column: 4 }
    );
    bar.handle_input(Key::Char('q'), Modifiers::none());
    assert_eq!(
        bar.render(),
        BarLayout { placeholder: false, cursor_mark: true, cursor_column: 5 }
    );
    bar.handle_input(Key::Left, Modifiers::none());
    assert_eq!(
        bar.render(),
        BarLayout { placeholder: false, cursor_mark: false, cursor_column: 4 }
    );
    assert_eq!(bar_padding(80, 4, 17, 1), 54);
    assert_eq!(bar_padding(20, 4, 17, 1), 0);
    assert_eq!(bar_padding(26, 4, 17, 1), 0);
    assert_eq!(bar_padding(27, 4, 17, 1), 1);
    assert_eq!(bar_padding(10, usize::MAX, 17, 1), 0);
}

#[test]
fn the_window_follows_the_selection() {
    let mut list = ResultList::new(3);
    assert!(list.get_selected().is_none());
    assert!(list.update_results(matches(&["a", "b", "c", "d", "e"])));
    assert_eq!(list.get_selected().unwrap().entry.path(), "a");
    list.move_selection(1);
    list.move_selection(1);
    assert_eq!((list.selected_idx(), list.window_start()), (2, 0));
    list.move_selection(1);
    assert_eq!((list.selected_idx(), list.window_start()), (3, 1));
    list.move_selection(1);
    list.move_selection(1);
    assert_eq!((list.selected_idx(), list.window_start()), (4, 2));
    list.move_selection(-4);
    assert_eq!((list.selected_idx(), list.window_start()), (0, 0));
    list.move_selection(-1);
    list.move_selection(5);
    list.move_selection(i32::MAX);
    list.move_selection(i32::MIN);
    assert_eq!((list.selected_idx(), list.window_start()), (0, 0));
    list.move_selection(4);
    assert_eq!((list.selected_idx(), list.window_start()), (4, 2));
}

#[test]
fn new_results_pull_the_selection_back() {
    let mut list = ResultList::new(2);
    list.update_results(matches(&["a", "b", "c", "d"]));
    list.move_selection(3);
    assert_eq!((list.selected_idx(), list.window_start()), (3, 2));
    assert!(list.update_results(matches(&["a", "b"])));
    assert_eq!((list.selected_idx(), list.window_start()), (1, 1));
    assert!(!list.update_results(matches(&["a", "b"])));
    assert!(list.update_results(Vec::new()));
    assert_eq!((list.selected_idx(), list.window_start()), (0, 0));
    assert!(list.get_selected().is_none());
    list.reset_selection();
    list.set_progress(9, true);
    assert_eq!(list.total_indexed(), 9);
    assert!(list.indexing_complete());
}

#[test]
fn results_that_look_the_same_are_unchanged() {
    let a = matches(&["x", "y"]);
    let mut b = matches(&["x", "y"]);
    assert!(rows_unchanged(&a, &b));
    b[1].score = 3;
    assert!(!rows_unchanged(&a, &b));
    b[1].score = 0;
    b[1].positions = vec![1];
    assert!(!rows_unchanged(&a, &b));
    assert!(!rows_unchanged(&a, &matches(&["x"])));
    assert!(!rows_unchanged(&a, &matches(&["x", "z"])));
    assert!(same_positions(&vec![1, 2], &vec![1, 2]));
    assert!(!same_positions(&vec![1, 2], &vec![1, 3]));
    assert!(!same_positions(&vec![1], &vec![1, 3]));
}

#[test]
fn an_empty_list_says_why_it_is_empty() {
    let mut list = ResultList::new(3);
    list.set_progress(12, false);
    assert!(matches!(list.render(80), Listing::Indexing(12)));
    list.set_progress(15, true);
    assert!(matches!(list.render(80), Listing::NoMatches(15)));
}

#[test]
fn the_window_is_rendered_row_by_row() {
    let mut list = ResultList::new(2);
    list.update_results(matches(&["d/a.txt", "d/b.txt", "d/c.txt"]));
    list.move_selection(2);
    let rows = match list.render(200) {
        Listing::Rows(rows) => rows,
        _ => panic!("rows expected"),
    };
    assert_eq!(rows.len(), 2);
    assert_eq!((rows[0].index, rows[0].selected), (1, false));
    assert_eq!((rows[1].index, rows[1].selected), (2, true));
    assert_eq!(rows[0].name, "b.txt");
    assert_eq!(rows[1].shown_path, "d/c.txt");
    let status = list.status(available_rows(6));
    assert_eq!((status.total, status.first, status.last), (3, 2, 3));
    assert_eq!(list.status(1).last, 2);
    assert!(status.indexing);
    assert_eq!(available_rows(3), 0);
    assert_eq!(available_rows(24), 20);
}

#[test]
fn long_paths_are_shortened() {
    let parts = |v: &[&str]| v.iter().map(|s| s.to_string()).collect::<Vec<String>>();
    assert_eq!(shorten_path("a/b", &parts(&["a", "b"]), "b"), "a/b");
    assert_eq!(shorten_path("a/b/c", &parts(&["a", "b", "c"]), "c"), "a/b/c");
    assert_eq!(shorten_path("a/b/c/d", &parts(&["a", "b", "c", "d"]), "d"), "a/.../c/d");
    assert_eq!(
        shorten_path("r/1/2/3/4/f", &parts(&["r", "1", "2", "3", "4", "f"]), "f"),
        "r/.../4/f"
    );
    let m = MatchResult {
        score: 0,
        positions: vec![],
        entry: FileEntry::new("alpha/beta/gamma/delta.txt".to_string(), 0),
    };
    // 26 bytes fit into 86 - 60 columns
    assert_eq!(shown_path(&m, 86), "alpha/beta/gamma/delta.txt");
    assert_eq!(shown_path(&m, 85), "alpha/.../gamma/delta.txt");
    assert_eq!(shown_path(&m, 0), "alpha/.../gamma/delta.txt");
}
