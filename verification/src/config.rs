//! The tool's settings: their shape, their defaults and the rules a valid
//! configuration obeys.

use crate::error::{invalid_path, invalid_value, validation_error, LlaError, LlaErrorView};
use crate::text::{
    clone_texts, concat2, concat3, count_value, has_text, join_texts, joined, lowercase, parse_bool,
    parse_count, same_text, texts, to_lowercase, truth_value,
};
use vstd::prelude::*;
use vstd::string::*;

verus! {

/// Settings of the tree formatter.
#[derive(Debug, Clone, Copy, PartialEq, Eq, Structural)]
pub struct TreeFormatterConfig {
    pub max_lines: Option<usize>,
}

/// Settings of the grid formatter.
#[derive(Debug, Clone, Copy, PartialEq, Eq, Structural)]
pub struct GridFormatterConfig {
    pub ignore_width: bool,
    pub max_width: usize,
}

/// Settings of the size-map formatter (none so far).
#[derive(Debug, Clone, Copy, PartialEq, Eq, Structural)]
pub struct SizeMapConfig {}

/// Settings of the long formatter.
#[derive(Debug, Clone, Copy, PartialEq, Eq, Structural)]
pub struct LongFormatterConfig {
    pub hide_group: bool,
    pub relative_dates: bool,
}

/// Settings of all formatters.
#[derive(Debug, Clone, Copy, PartialEq, Eq, Structural)]
pub struct FormatterConfig {
    pub tree: TreeFormatterConfig,
    pub grid: GridFormatterConfig,
    pub long: LongFormatterConfig,
    pub sizemap: SizeMapConfig,
}

/// Settings of the recursive lister.
#[derive(Debug, Clone, Copy, PartialEq, Eq, Structural)]
pub struct RecursiveConfig {
    pub max_entries: Option<usize>,
}

/// Settings of the fuzzy finder: the ordered list of ignore rules.
#[derive(Debug)]
pub struct FuzzyConfig {
    pub ignore_patterns: Vec<String>,
}

/// Settings of all listers.
#[derive(Debug)]
pub struct ListerConfig {
    pub recursive: RecursiveConfig,
    pub fuzzy: FuzzyConfig,
}

/// How listings are sorted by default.
#[derive(Debug, Clone, Copy, PartialEq, Eq, Structural)]
pub struct SortConfig {
    pub dirs_first: bool,
    pub case_sensitive: bool,
    pub natural: bool,
}

/// How listings are filtered by default.
#[derive(Debug, Clone, Copy, PartialEq, Eq, Structural)]
pub struct FilterConfig {
    pub case_sensitive: bool,
    pub no_dotfiles: bool,
}

/// A named shortcut for a plugin action.
#[derive(Debug)]
pub struct ShortcutCommand {
    pub plugin_name: String,
    pub action: String,
    pub description: Option<String>,
}

/// The whole configuration.
#[derive(Debug)]
pub struct Config {
    pub default_sort: String,
    pub default_format: String,
    pub enabled_plugins: Vec<String>,
    pub plugins_dir: String,
    pub default_depth: Option<usize>,
    pub show_icons: bool,
    pub include_dirs: bool,
    pub sort: SortConfig,
    pub filter: FilterConfig,
    pub formatters: FormatterConfig,
    pub listers: ListerConfig,
    /// Shortcuts by name, in the order they were added; no name occurs twice.
    pub shortcuts: Vec<(String, ShortcutCommand)>,
    pub theme: String,
    pub permission_format: String,
}

/// What a shortcut holds.
pub struct ShortcutView {
    pub plugin_name: Seq<char>,
    pub action: Seq<char>,
    pub description: Option<Seq<char>>,
}

/// What a configuration holds.
pub struct ConfigView {
    pub default_sort: Seq<char>,
    pub default_format: Seq<char>,
    pub enabled_plugins: Seq<Seq<char>>,
    pub plugins_dir: Seq<char>,
    pub default_depth: Option<usize>,
    pub show_icons: bool,
    pub include_dirs: bool,
    pub sort: SortConfig,
    pub filter: FilterConfig,
    pub formatters: FormatterConfig,
    pub recursive: RecursiveConfig,
    pub ignore_patterns: Seq<Seq<char>>,
    pub shortcuts: Seq<(Seq<char>, ShortcutView)>,
    pub theme: Seq<char>,
    pub permission_format: Seq<char>,
}

impl View for ShortcutCommand {
    type V = ShortcutView;

    open spec fn view(&self) -> ShortcutView {
        ShortcutView {
            plugin_name: self.plugin_name@,
            action: self.action@,
            description: match self.description {
                Some(d) => Some(d@),
                None => None,
            },
        }
    }
}

/// What a list of named shortcuts holds.
pub open spec fn shortcut_views(s: Seq<(String, ShortcutCommand)>) -> Seq<(Seq<char>, ShortcutView)> {
    s.map_values(|p: (String, ShortcutCommand)| (p.0@, p.1@))
}

impl View for Config {
    type V = ConfigView;

    open spec fn view(&self) -> ConfigView {
        ConfigView {
            default_sort: self.default_sort@,
            default_format: self.default_format@,
            enabled_plugins: texts(self.enabled_plugins@),
            plugins_dir: self.plugins_dir@,
            default_depth: self.default_depth,
            show_icons: self.show_icons,
            include_dirs: self.include_dirs,
            sort: self.sort,
            filter: self.filter,
            formatters: self.formatters,
            recursive: self.listers.recursive,
            ignore_patterns: texts(self.listers.fuzzy.ignore_patterns@),
            shortcuts: shortcut_views(self.shortcuts@),
            theme: self.theme@,
            permission_format: self.permission_format@,
        }
    }
}

impl Clone for ShortcutCommand {
    fn clone(&self) -> (r: Self)
        ensures
            r@ == self@,
    {
        ShortcutCommand {
            plugin_name: self.plugin_name.clone(),
            action: self.action.clone(),
            description: match &self.description {
                Some(d) => Some(d.clone()),
                None => None,
            },
        }
    }
}

impl Clone for FuzzyConfig {
    fn clone(&self) -> (r: Self)
        ensures
            texts(r.ignore_patterns@) == texts(self.ignore_patterns@),
    {
        FuzzyConfig { ignore_patterns: clone_texts(&self.ignore_patterns) }
    }
}

impl Clone for ListerConfig {
    fn clone(&self) -> (r: Self)
        ensures
            r.recursive == self.recursive,
            texts(r.fuzzy.ignore_patterns@) == texts(self.fuzzy.ignore_patterns@),
    {
        ListerConfig { recursive: self.recursive, fuzzy: self.fuzzy.clone() }
    }
}

/// A copy of a list of named shortcuts with the same contents.
pub fn clone_shortcuts(v: &Vec<(String, ShortcutCommand)>) -> (r: Vec<(String, ShortcutCommand)>)
    ensures
        shortcut_views(r@) == shortcut_views(v@),
{
    let mut out: Vec<(String, ShortcutCommand)> = Vec::new();
    let mut i: usize = 0;
    while i < v.len()
        invariant
            i <= v.len(),
            out.len() == i,
            forall|k: int| 0 <= k < i ==> out@[k].0@ == v@[k].0@ && out@[k].1@ == v@[k].1@,
        decreases v.len() - i,
    {
        let name = v[i].0.clone();
        let cmd = v[i].1.clone();
        out.push((name, cmd));
        i += 1;
    }
    assert(shortcut_views(out@) =~= shortcut_views(v@));
    out
}

impl Clone for Config {
    fn clone(&self) -> (r: Self)
        ensures
            r@ == self@,
    {
        Config {
            default_sort: self.default_sort.clone(),
            default_format: self.default_format.clone(),
            enabled_plugins: clone_texts(&self.enabled_plugins),
            plugins_dir: self.plugins_dir.clone(),
            default_depth: self.default_depth,
            show_icons: self.show_icons,
            include_dirs: self.include_dirs,
            sort: self.sort,
            filter: self.filter,
            formatters: self.formatters,
            listers: self.listers.clone(),
            shortcuts: clone_shortcuts(&self.shortcuts),
            theme: self.theme.clone(),
            permission_format: self.permission_format.clone(),
        }
    }
}

/// The widest grid the grid formatter lays out when it ignores the terminal.
pub fn default_grid_max_width() -> (r: usize)
    ensures
        r == 200,
{
    200
}

/// The ignore rules of a fresh configuration.
pub open spec fn default_ignore_rules() -> Seq<Seq<char>> {
    seq!["node_modules"@, "target"@, ".git"@, ".idea"@, ".vscode"@]
}

/// The ignore rules the finder starts with.
pub fn default_ignore_patterns() -> (r: Vec<String>)
    ensures
        texts(r@) == default_ignore_rules(),
{
    let mut v: Vec<String> = Vec::new();
    v.push("node_modules".to_owned());
    v.push("target".to_owned());
    v.push(".git".to_owned());
    v.push(".idea".to_owned());
    v.push(".vscode".to_owned());
    assert(texts(v@) =~= default_ignore_rules());
    v
}

/// The name of the theme a fresh configuration uses.
pub fn default_theme_name() -> (r: String)
    ensures
        r@ == "default"@,
{
    "default".to_owned()
}

/// The permission format a fresh configuration uses.
pub fn default_permission_format() -> (r: String)
    ensures
        r@ == "symbolic"@,
{
    "symbolic".to_owned()
}

impl Default for TreeFormatterConfig {
    fn default() -> (r: Self)
        ensures
            r == (TreeFormatterConfig { max_lines: Some(20_000usize) }),
    {
        TreeFormatterConfig { max_lines: Some(20_000) }
    }
}

impl Default for GridFormatterConfig {
    fn default() -> (r: Self)
        ensures
            r == (GridFormatterConfig { ignore_width: false, max_width: 200 }),
    {
        GridFormatterConfig { ignore_width: false, max_width: default_grid_max_width() }
    }
}

impl Default for SizeMapConfig {
    fn default() -> (r: Self)
        ensures
            r == (SizeMapConfig {  }),
    {
        SizeMapConfig {  }
    }
}

impl Default for LongFormatterConfig {
    fn default() -> (r: Self)
        ensures
            r == (LongFormatterConfig { hide_group: false, relative_dates: false }),
    {
        LongFormatterConfig { hide_group: false, relative_dates: false }
    }
}

/// The formatter settings of a fresh configuration.
pub open spec fn default_formatters() -> FormatterConfig {
    FormatterConfig {
        tree: TreeFormatterConfig { max_lines: Some(20_000usize) },
        grid: GridFormatterConfig { ignore_width: false, max_width: 200 },
        long: LongFormatterConfig { hide_group: false, relative_dates: false },
        sizemap: SizeMapConfig {  },
    }
}

impl Default for FormatterConfig {
    fn default() -> (r: Self)
        ensures
            r == default_formatters(),
    {
        FormatterConfig {
            tree: TreeFormatterConfig::default(),
            grid: GridFormatterConfig::default(),
            long: LongFormatterConfig::default(),
            sizemap: SizeMapConfig::default(),
        }
    }
}

impl Default for RecursiveConfig {
    fn default() -> (r: Self)
        ensures
            r == (RecursiveConfig { max_entries: Some(20_000usize) }),
    {
        RecursiveConfig { max_entries: Some(20_000) }
    }
}

impl Default for FuzzyConfig {
    fn default() -> (r: Self)
        ensures
            texts(r.ignore_patterns@) == default_ignore_rules(),
    {
        FuzzyConfig { ignore_patterns: default_ignore_patterns() }
    }
}

impl Default for ListerConfig {
    fn default() -> (r: Self)
        ensures
            r.recursive == (RecursiveConfig { max_entries: Some(20_000usize) }),
            texts(r.fuzzy.ignore_patterns@) == default_ignore_rules(),
    {
        ListerConfig { recursive: RecursiveConfig::default(), fuzzy: FuzzyConfig::default() }
    }
}

impl Default for SortConfig {
    fn default() -> (r: Self)
        ensures
            r == (SortConfig { dirs_first: false, case_sensitive: false, natural: true }),
    {
        SortConfig { dirs_first: false, case_sensitive: false, natural: true }
    }
}

impl Default for FilterConfig {
    fn default() -> (r: Self)
        ensures
            r == (FilterConfig { case_sensitive: false, no_dotfiles: false }),
    {
        FilterConfig { case_sensitive: false, no_dotfiles: false }
    }
}

/// What a fresh configuration holds, given where its plugins live.
pub open spec fn default_config(plugins_dir: Seq<char>) -> ConfigView {
    ConfigView {
        default_sort: "name"@,
        default_format: "default"@,
        enabled_plugins: Seq::empty(),
        plugins_dir,
        default_depth: Some(3usize),
        show_icons: false,
        include_dirs: false,
        sort: SortConfig { dirs_first: false, case_sensitive: false, natural: true },
        filter: FilterConfig { case_sensitive: false, no_dotfiles: false },
        formatters: default_formatters(),
        recursive: RecursiveConfig { max_entries: Some(20_000usize) },
        ignore_patterns: default_ignore_rules(),
        shortcuts: Seq::empty(),
        theme: "default"@,
        permission_format: "symbolic"@,
    }
}

/// Calls `dirs::home_dir` and turns the path into a string. Nothing is
/// claimed of the result: it depends on the user's account.
#[verifier::external_body]
pub(crate) fn home_dir() -> (home: Option<String>)
{
    match dirs::home_dir() {
        Some(p) => Some(p.to_string_lossy().into_owned()),
        None => None,
    }
}

/// Calls `std::path::Path::join` and turns the path into a string. Nothing
/// is claimed of the result: the separator is the platform's.
#[verifier::external_body]
pub(crate) fn join_path(base: &str, part: &str) -> (joined: String)
{
    std::path::Path::new(base).join(part).to_string_lossy().into_owned()
}

impl Default for Config {
    /// A fresh configuration whose plugins live under the user's home
    /// directory, or under the current directory where there is no home.
    fn default() -> (c: Self)
        ensures
            c@ == default_config(c@.plugins_dir),
            c.wf(),
    {
        let home = match home_dir() {
            Some(h) => h,
            None => ".".to_owned(),
        };
        let a = join_path(home.as_str(), ".config");
        let b = join_path(a.as_str(), "lla");
        Config::with_plugins_dir(join_path(b.as_str(), "plugins"))
    }
}

/// The spelled-out sort orders.
pub open spec fn is_sort(s: Seq<char>) -> bool {
    s == "name"@ || s == "size"@ || s == "date"@
}

/// The spelled-out listing formats.
pub open spec fn is_format(s: Seq<char>) -> bool {
    s == "default"@ || s == "long"@ || s == "tree"@ || s == "grid"@ || s == "git"@ || s
        == "timeline"@ || s == "sizemap"@ || s == "table"@ || s == "fuzzy"@
}

/// The spelled-out permission formats.
pub open spec fn is_permission_format(s: Seq<char>) -> bool {
    s == "symbolic"@ || s == "octal"@ || s == "binary"@ || s == "verbose"@ || s == "compact"@
}

/// Whether the text names a sort order.
pub fn known_sort(s: &str) -> (r: bool)
    ensures
        r == is_sort(s@),
{
    same_text(s, "name") || same_text(s, "size") || same_text(s, "date")
}

/// Whether the text names a listing format.
pub fn known_format(s: &str) -> (r: bool)
    ensures
        r == is_format(s@),
{
    same_text(s, "default") || same_text(s, "long") || same_text(s, "tree") || same_text(s, "grid")
        || same_text(s, "git") || same_text(s, "timeline") || same_text(s, "sizemap") || same_text(
        s,
        "table",
    ) || same_text(s, "fuzzy")
}

/// Whether the text names a permission format.
pub fn known_permission_format(s: &str) -> (r: bool)
    ensures
        r == is_permission_format(s@),
{
    same_text(s, "symbolic") || same_text(s, "octal") || same_text(s, "binary") || same_text(
        s,
        "verbose",
    ) || same_text(s, "compact")
}

/// The largest number of tree lines or recursive entries a configuration
/// may ask for.
pub const MAX_LISTED: usize = 100_000;

/// The first slot of a list of named shortcuts that bears the name.
pub open spec fn slot_of(sc: Seq<(Seq<char>, ShortcutView)>, name: Seq<char>) -> Option<int>
    decreases sc.len(),
{
    if sc.len() == 0 {
        None
    } else {
        match slot_of(sc.drop_last(), name) {
            Some(i) => Some(i),
            None => if sc.last().0 == name {
                Some(sc.len() - 1)
            } else {
                None
            },
        }
    }
}

/// The shortcut that bears the name.
pub open spec fn lookup(sc: Seq<(Seq<char>, ShortcutView)>, name: Seq<char>) -> Option<ShortcutView> {
    match slot_of(sc, name) {
        Some(i) => Some(sc[i].1),
        None => None,
    }
}

/// The shortcuts with `name` bound to `cmd`: in place where the name was
/// bound, at the end where it was not.
pub open spec fn bound(sc: Seq<(Seq<char>, ShortcutView)>, name: Seq<char>, cmd: ShortcutView) -> Seq<
    (Seq<char>, ShortcutView),
> {
    match slot_of(sc, name) {
        Some(i) => sc.update(i, (name, cmd)),
        None => sc.push((name, cmd)),
    }
}

/// The shortcuts without the one that bears the name.
pub open spec fn unbound(sc: Seq<(Seq<char>, ShortcutView)>, name: Seq<char>) -> Seq<
    (Seq<char>, ShortcutView),
> {
    match slot_of(sc, name) {
        Some(i) => sc.remove(i),
        None => sc,
    }
}

/// No two shortcuts bear the same name.
pub open spec fn distinct_names(sc: Seq<(Seq<char>, ShortcutView)>) -> bool {
    forall|i: int, j: int| 0 <= i < j < sc.len() ==> (#[trigger] sc[i]).0 != (#[trigger] sc[j]).0
}

/// What `slot_of` finds: a slot bearing the name with none before it, or
/// nothing where no slot bears it.
pub proof fn lemma_slot_of(sc: Seq<(Seq<char>, ShortcutView)>, name: Seq<char>)
    ensures
        match slot_of(sc, name) {
            Some(i) => 0 <= i < sc.len() && sc[i].0 == name && forall|j: int|
                0 <= j < i ==> (#[trigger] sc[j]).0 != name,
            None => forall|j: int| 0 <= j < sc.len() ==> (#[trigger] sc[j]).0 != name,
        },
    decreases sc.len(),
{
    if sc.len() > 0 {
        lemma_slot_of(sc.drop_last(), name);
        match slot_of(sc.drop_last(), name) {
            Some(i) => {
                assert(sc.drop_last()[i] == sc[i]);
                assert forall|j: int| 0 <= j < i implies (#[trigger] sc[j]).0 != name by {
                    assert(sc.drop_last()[j] == sc[j]);
                }
            },
            None => {
                assert forall|j: int| 0 <= j < sc.len() - 1 implies (#[trigger] sc[j]).0 != name by {
                    assert(sc.drop_last()[j] == sc[j]);
                }
            },
        }
    }
}

/// A slot that bears the name, with none before it, is what `slot_of` finds.
pub proof fn lemma_slot_of_is(sc: Seq<(Seq<char>, ShortcutView)>, name: Seq<char>, i: int)
    requires
        0 <= i < sc.len(),
        sc[i].0 == name,
        forall|j: int| 0 <= j < i ==> (#[trigger] sc[j]).0 != name,
    ensures
        slot_of(sc, name) == Some(i),
{
    lemma_slot_of(sc, name);
}

/// Where no slot bears the name, `slot_of` finds nothing.
pub proof fn lemma_slot_of_none(sc: Seq<(Seq<char>, ShortcutView)>, name: Seq<char>)
    requires
        forall|j: int| 0 <= j < sc.len() ==> (#[trigger] sc[j]).0 != name,
    ensures
        slot_of(sc, name).is_none(),
{
    lemma_slot_of(sc, name);
}

/// A shortcut that was bound is found under its name, and binding it leaves
/// every other name as it was.
pub proof fn law_bound_then_lookup(
    sc: Seq<(Seq<char>, ShortcutView)>,
    name: Seq<char>,
    cmd: ShortcutView,
    other: Seq<char>,
)
    ensures
        lookup(bound(sc, name, cmd), name) == Some(cmd),
        other != name ==> lookup(bound(sc, name, cmd), other) == lookup(sc, other),
        distinct_names(sc) ==> distinct_names(bound(sc, name, cmd)),
{
    lemma_slot_of(sc, name);
    lemma_slot_of(sc, other);
    let after = bound(sc, name, cmd);
    match slot_of(sc, name) {
        Some(i) => {
            lemma_slot_of_is(after, name, i);
        },
        None => {
            lemma_slot_of_is(after, name, sc.len() as int);
        },
    }
    if other != name {
        match slot_of(sc, other) {
            Some(k) => {
                lemma_slot_of_is(after, other, k);
            },
            None => {
                lemma_slot_of_none(after, other);
            },
        }
    }
}

/// Among distinct names, a shortcut that was removed is no longer found,
/// and removing it leaves every other name as it was.
pub proof fn law_unbound_then_lookup(sc: Seq<(Seq<char>, ShortcutView)>, name: Seq<char>, other: Seq<char>)
    requires
        distinct_names(sc),
    ensures
        lookup(unbound(sc, name), name).is_none(),
        other != name ==> lookup(unbound(sc, name), other) == lookup(sc, other),
        distinct_names(unbound(sc, name)),
{
    lemma_slot_of(sc, name);
    lemma_slot_of(sc, other);
    let after = unbound(sc, name);
    lemma_slot_of_none(after, name);
    if other != name {
        match slot_of(sc, other) {
            Some(k) => {
                match slot_of(sc, name) {
                    Some(i) => {
                        if k < i {
                            lemma_slot_of_is(after, other, k);
                        } else {
                            lemma_slot_of_is(after, other, k - 1);
                        }
                    },
                    None => {},
                }
            },
            None => {
                lemma_slot_of_none(after, other);
            },
        }
    }
}

/// The plugins of a list other than the named one, in their order.
pub open spec fn without(list: Seq<Seq<char>>, name: Seq<char>) -> Seq<Seq<char>> {
    list.filter_map(dropper(name))
}

/// Passing every text but `name`, as a function.
pub open spec fn dropper(name: Seq<char>) -> spec_fn(Seq<char>) -> Option<Seq<char>> {
    |t: Seq<char>|
        if t == name {
            None
        } else {
            Some(t)
        }
}

/// The file names under which a plugin may be installed.
pub open spec fn plugin_files(plugin: Seq<char>) -> Seq<Seq<char>> {
    seq![
        "lib"@ + plugin + ".dylib"@,
        "lib"@ + plugin + ".so"@,
        plugin + ".dll"@,
        plugin + ".dylib"@,
        plugin + ".so"@,
        plugin,
    ]
}

/// The file names under which a plugin may be installed, in the order in
/// which they are looked for.
pub fn plugin_file_names(plugin: &str) -> (r: Vec<String>)
    ensures
        texts(r@) == plugin_files(plugin@),
{
    let mut v: Vec<String> = Vec::new();
    v.push(concat3("lib", plugin, ".dylib"));
    v.push(concat3("lib", plugin, ".so"));
    v.push(concat2(plugin, ".dll"));
    v.push(concat2(plugin, ".dylib"));
    v.push(concat2(plugin, ".so"));
    v.push(plugin.to_owned());
    assert(texts(v@) =~= plugin_files(plugin@));
    v
}

/// What was found on disk when a configuration is validated.
#[derive(Debug)]
pub struct PluginsProbe {
    /// Whether the plugins directory exists.
    pub dir_exists: bool,
    /// For each enabled plugin, in order, whether one of its files exists
    /// in the plugins directory. A plugin without an answer counts as
    /// missing.
    pub plugin_found: Vec<bool>,
}

/// A rule of a valid configuration that is broken.
pub enum Fault {
    Sort,
    Format,
    PluginsDir,
    Depth,
    TreeLines,
    RecursiveEntries,
    /// The enabled plugin at this position is not installed.
    Plugin(int),
    /// A shortcut has no name.
    ShortcutName,
    /// The shortcut at this position names no plugin.
    ShortcutPlugin(int),
    /// The shortcut at this position names no action.
    ShortcutAction(int),
}

/// The first of `n` enabled plugins that was not found.
pub open spec fn first_missing(n: int, found: Seq<bool>) -> Option<int>
    decreases n,
{
    if n <= 0 {
        None
    } else {
        match first_missing(n - 1, found) {
            Some(i) => Some(i),
            None => if n - 1 < found.len() && found[n - 1] {
                None
            } else {
                Some(n - 1)
            },
        }
    }
}

/// What is wrong with the shortcut at position `i`, if anything.
pub open spec fn shortcut_fault(entry: (Seq<char>, ShortcutView), i: int) -> Option<Fault> {
    if entry.0.len() == 0 {
        Some(Fault::ShortcutName)
    } else if entry.1.plugin_name.len() == 0 {
        Some(Fault::ShortcutPlugin(i))
    } else if entry.1.action.len() == 0 {
        Some(Fault::ShortcutAction(i))
    } else {
        None
    }
}

/// What is wrong with the first faulty shortcut, if any.
pub open spec fn first_shortcut_fault(sc: Seq<(Seq<char>, ShortcutView)>) -> Option<Fault>
    decreases sc.len(),
{
    if sc.len() == 0 {
        None
    } else {
        match first_shortcut_fault(sc.drop_last()) {
            Some(f) => Some(f),
            None => shortcut_fault(sc.last(), sc.len() - 1),
        }
    }
}

/// Whether the rules about single settings and the plugins directory hold.
pub open spec fn settings_ok(c: ConfigView, dir_exists: bool) -> bool {
    &&& is_sort(c.default_sort)
    &&& is_format(c.default_format)
    &&& dir_exists
    &&& c.default_depth != Some(0usize)
    &&& !(c.formatters.tree.max_lines.is_some() && c.formatters.tree.max_lines.unwrap() > MAX_LISTED)
    &&& !(c.recursive.max_entries.is_some() && c.recursive.max_entries.unwrap() > MAX_LISTED)
}

/// The first rule a configuration breaks, in the order in which the rules
/// are checked; `None` for a valid configuration.
pub open spec fn first_fault(c: ConfigView, dir_exists: bool, found: Seq<bool>) -> Option<Fault> {
    if !is_sort(c.default_sort) {
        Some(Fault::Sort)
    } else if !is_format(c.default_format) {
        Some(Fault::Format)
    } else if !dir_exists {
        Some(Fault::PluginsDir)
    } else if c.default_depth == Some(0usize) {
        Some(Fault::Depth)
    } else if c.formatters.tree.max_lines.is_some() && c.formatters.tree.max_lines.unwrap()
        > MAX_LISTED {
        Some(Fault::TreeLines)
    } else if c.recursive.max_entries.is_some() && c.recursive.max_entries.unwrap() > MAX_LISTED {
        Some(Fault::RecursiveEntries)
    } else {
        match first_missing(c.enabled_plugins.len() as int, found) {
            Some(i) => Some(Fault::Plugin(i)),
            None => first_shortcut_fault(c.shortcuts),
        }
    }
}

/// The error that reports a broken rule.
pub open spec fn fault_error(c: ConfigView, f: Fault) -> LlaErrorView {
    match f {
        Fault::Sort => invalid_value(
            "default_sort"@,
            "Invalid sort value: "@ + c.default_sort + ". Must be one of: name, size, date"@,
        ),
        Fault::Format => invalid_value(
            "default_format"@,
            "Invalid format value: "@ + c.default_format
                + ". Must be one of: default, long, tree, grid, git, timeline, sizemap, table, fuzzy"@,
        ),
        Fault::PluginsDir => invalid_path(
            "Plugins directory does not exist: "@ + c.plugins_dir,
        ),
        Fault::Depth => invalid_value("default_depth"@, "Depth must be greater than 0 or None"@),
        Fault::TreeLines => invalid_value(
            "formatters.tree.max_lines"@,
            "Tree formatter max lines should not exceed 100,000"@,
        ),
        Fault::RecursiveEntries => invalid_value(
            "listers.recursive.max_entries"@,
            "Recursive lister max entries should not exceed 100,000"@,
        ),
        Fault::Plugin(i) => validation_error(
            "Enabled plugin not found: "@ + c.enabled_plugins[i],
        ),
        Fault::ShortcutName => validation_error("Shortcut name cannot be empty"@),
        Fault::ShortcutPlugin(i) => validation_error(
            "Plugin name cannot be empty for shortcut: "@ + c.shortcuts[i].0,
        ),
        Fault::ShortcutAction(i) => validation_error(
            "Action cannot be empty for shortcut: "@ + c.shortcuts[i].0,
        ),
    }
}

impl Config {
    /// No two shortcuts bear the same name.
    pub open spec fn wf(&self) -> bool {
        distinct_names(self@.shortcuts)
    }

    /// A fresh configuration whose plugins live in `plugins_dir`.
    pub fn with_plugins_dir(plugins_dir: String) -> (c: Self)
        ensures
            c@ == default_config(plugins_dir@),
            c.wf(),
    {
        let c = Config {
            default_sort: "name".to_owned(),
            default_format: "default".to_owned(),
            enabled_plugins: Vec::new(),
            plugins_dir,
            default_depth: Some(3),
            show_icons: false,
            include_dirs: false,
            sort: SortConfig::default(),
            filter: FilterConfig::default(),
            formatters: FormatterConfig::default(),
            listers: ListerConfig::default(),
            shortcuts: Vec::new(),
            theme: default_theme_name(),
            permission_format: default_permission_format(),
        };
        assert(texts(c.enabled_plugins@) =~= Seq::<Seq<char>>::empty());
        assert(shortcut_views(c.shortcuts@) =~= Seq::<(Seq<char>, ShortcutView)>::empty());
        c
    }

    /// A fresh configuration.
    pub fn new() -> (c: Self)
        ensures
            c@ == default_config(c@.plugins_dir),
            c.wf(),
    {
        Config::default()
    }

    /// Enables a plugin unless it is enabled already; says whether the
    /// configuration changed.
    pub fn enable_plugin(&mut self, plugin_name: &str) -> (changed: bool)
        ensures
            changed == !old(self)@.enabled_plugins.contains(plugin_name@),
            final(self)@ == (ConfigView {
                enabled_plugins: if changed {
                    old(self)@.enabled_plugins.push(plugin_name@)
                } else {
                    old(self)@.enabled_plugins
                },
                ..old(self)@
            }),
    {
        if !has_text(&self.enabled_plugins, plugin_name) {
            let ghost before = self.enabled_plugins@;
            self.enabled_plugins.push(plugin_name.to_owned());
            assert(texts(self.enabled_plugins@) =~= texts(before).push(plugin_name@));
            true
        } else {
            false
        }
    }

    /// Disables a plugin: every mention of it leaves the list.
    pub fn disable_plugin(&mut self, plugin_name: &str)
        ensures
            final(self)@ == (ConfigView {
                enabled_plugins: without(old(self)@.enabled_plugins, plugin_name@),
                ..old(self)@
            }),
    {
        let ghost all = texts(self.enabled_plugins@);
        let mut kept: Vec<String> = Vec::new();
        let mut i: usize = 0;
        assert(all.take(0).filter_map(dropper(plugin_name@)) =~= Seq::<Seq<char>>::empty());
        assert(texts(kept@) =~= Seq::<Seq<char>>::empty());
        while i < self.enabled_plugins.len()
            invariant
                i <= self.enabled_plugins.len(),
                *self == *old(self),
                all == texts(self.enabled_plugins@),
                texts(kept@) == all.take(i as int).filter_map(dropper(plugin_name@)),
            decreases self.enabled_plugins.len() - i,
        {
            let ghost before = kept@;
            proof {
                all.lemma_filter_map_take_succ(dropper(plugin_name@), i as int);
            }
            if !same_text(self.enabled_plugins[i].as_str(), plugin_name) {
                kept.push(self.enabled_plugins[i].clone());
                assert(texts(kept@) =~= texts(before).push(self.enabled_plugins@[i as int]@));
            }
            i += 1;
        }
        assert(all.take(all.len() as int) =~= all);
        self.enabled_plugins = kept;
    }

    /// The slot of the shortcut that bears the name.
    pub fn shortcut_slot(&self, name: &str) -> (r: Option<usize>)
        ensures
            match r {
                Some(i) => slot_of(self@.shortcuts, name@) == Some(i as int) && i
                    < self.shortcuts@.len(),
                None => slot_of(self@.shortcuts, name@).is_none(),
            },
    {
        let ghost sc = self@.shortcuts;
        let mut i: usize = 0;
        while i < self.shortcuts.len()
            invariant
                i <= self.shortcuts.len(),
                sc == shortcut_views(self.shortcuts@),
                forall|j: int| 0 <= j < i ==> (#[trigger] sc[j]).0 != name@,
            decreases self.shortcuts.len() - i,
        {
            if same_text(self.shortcuts[i].0.as_str(), name) {
                proof {
                    lemma_slot_of_is(sc, name@, i as int);
                }
                return Some(i);
            }
            i += 1;
        }
        proof {
            lemma_slot_of_none(sc, name@);
        }
        None
    }

    /// Binds a shortcut name to a command, in place of what the name was
    /// bound to. A shortcut with an empty name, plugin or action is refused
    /// and nothing changes.
    pub fn add_shortcut(&mut self, name: String, command: ShortcutCommand) -> (r: Result<
        (),
        LlaError,
    >)
        ensures
            match r {
                Ok(_) => shortcut_fault((name@, command@), 0).is_none() && final(self)@
                    == (ConfigView {
                    shortcuts: bound(old(self)@.shortcuts, name@, command@),
                    ..old(self)@
                }),
                Err(e) => final(self)@ == old(self)@ && (if name@.len() == 0 {
                    e@ == validation_error("Shortcut name cannot be empty"@)
                } else if command@.plugin_name.len() == 0 {
                    e@ == validation_error("Plugin name cannot be empty"@)
                } else {
                    command@.action.len() == 0 && e@ == validation_error("Action cannot be empty"@)
                }),
            },
            old(self).wf() ==> final(self).wf(),
    {
        if name.as_str().is_empty() {
            return Err(LlaError::validation("Shortcut name cannot be empty".to_owned()));
        }
        if command.plugin_name.as_str().is_empty() {
            return Err(LlaError::validation("Plugin name cannot be empty".to_owned()));
        }
        if command.action.as_str().is_empty() {
            return Err(LlaError::validation("Action cannot be empty".to_owned()));
        }
        let ghost sc = self@.shortcuts;
        let ghost n = name@;
        let ghost c = command@;
        proof {
            law_bound_then_lookup(sc, n, c, n);
        }
        match self.shortcut_slot(name.as_str()) {
            Some(i) => {
                self.shortcuts.set(i, (name, command));
                assert(shortcut_views(self.shortcuts@) =~= sc.update(i as int, (n, c)));
            },
            None => {
                self.shortcuts.push((name, command));
                assert(shortcut_views(self.shortcuts@) =~= sc.push((n, c)));
            },
        }
        Ok(())
    }

    /// Removes the shortcut that bears the name, if there is one.
    pub fn remove_shortcut(&mut self, name: &str)
        ensures
            final(self)@ == (ConfigView {
                shortcuts: unbound(old(self)@.shortcuts, name@),
                ..old(self)@
            }),
            old(self).wf() ==> final(self).wf(),
    {
        let ghost sc = self@.shortcuts;
        proof {
            if distinct_names(sc) {
                law_unbound_then_lookup(sc, name@, name@);
            }
        }
        match self.shortcut_slot(name) {
            Some(i) => {
                let _gone = self.shortcuts.remove(i);
                assert(shortcut_views(self.shortcuts@) =~= sc.remove(i as int));
            },
            None => {},
        }
    }

    /// The shortcut that bears the name.
    pub fn get_shortcut(&self, name: &str) -> (r: Option<&ShortcutCommand>)
        ensures
            match r {
                Some(c) => lookup(self@.shortcuts, name@) == Some(c@),
                None => lookup(self@.shortcuts, name@).is_none(),
            },
    {
        match self.shortcut_slot(name) {
            Some(i) => Some(&self.shortcuts[i].1),
            None => None,
        }
    }

    /// The name of the theme to paint with.
    pub fn get_theme(&self) -> (r: &str)
        ensures
            r@ == self@.theme,
    {
        self.theme.as_str()
    }

    /// Checks the rules of a valid configuration in their order, against
    /// what was found on disk, and reports the first that is broken.
    pub fn validate(&self, probe: &PluginsProbe) -> (r: Result<(), LlaError>)
        ensures
            match r {
                Ok(_) => first_fault(self@, probe.dir_exists, probe.plugin_found@).is_none(),
                Err(e) => first_fault(self@, probe.dir_exists, probe.plugin_found@).is_some() && e@
                    == fault_error(
                    self@,
                    first_fault(self@, probe.dir_exists, probe.plugin_found@).unwrap(),
                ),
            },
    {
        let ghost c = self@;
        if !known_sort(self.default_sort.as_str()) {
            return Err(
                LlaError::value(
                    "default_sort",
                    concat3(
                        "Invalid sort value: ",
                        self.default_sort.as_str(),
                        ". Must be one of: name, size, date",
                    ),
                ),
            );
        }
        if !known_format(self.default_format.as_str()) {
            return Err(
                LlaError::value(
                    "default_format",
                    concat3(
                        "Invalid format value: ",
                        self.default_format.as_str(),
                        ". Must be one of: default, long, tree, grid, git, timeline, sizemap, table, fuzzy",
                    ),
                ),
            );
        }
        if !probe.dir_exists {
            return Err(
                LlaError::path(
                    concat2("Plugins directory does not exist: ", self.plugins_dir.as_str()),
                ),
            );
        }
        match self.default_depth {
            Some(depth) => {
                if depth == 0 {
                    return Err(
                        LlaError::value(
                            "default_depth",
                            "Depth must be greater than 0 or None".to_owned(),
                        ),
                    );
                }
            },
            None => {},
        }
        match self.formatters.tree.max_lines {
            Some(max_lines) => {
                if max_lines > MAX_LISTED {
                    return Err(
                        LlaError::value(
                            "formatters.tree.max_lines",
                            "Tree formatter max lines should not exceed 100,000".to_owned(),
                        ),
                    );
                }
            },
            None => {},
        }
        match self.listers.recursive.max_entries {
            Some(max_entries) => {
                if max_entries > MAX_LISTED {
                    return Err(
                        LlaError::value(
                            "listers.recursive.max_entries",
                            "Recursive lister max entries should not exceed 100,000".to_owned(),
                        ),
                    );
                }
            },
            None => {},
        }
        assert(settings_ok(c, probe.dir_exists));
        let mut i: usize = 0;
        while i < self.enabled_plugins.len()
            invariant
                i <= self.enabled_plugins.len(),
                c == self@,
                settings_ok(c, probe.dir_exists),
                first_missing(i as int, probe.plugin_found@).is_none(),
            decreases self.enabled_plugins.len() - i,
        {
            let found = i < probe.plugin_found.len() && probe.plugin_found[i];
            if !found {
                assert(first_missing(i + 1, probe.plugin_found@) == Some(i as int));
                proof {
                    lemma_first_missing_stays(
                        i + 1,
                        self.enabled_plugins@.len() as int,
                        probe.plugin_found@,
                    );
                    assert(c.enabled_plugins.len() == self.enabled_plugins@.len());
                    assert(c.enabled_plugins[i as int] == self.enabled_plugins@[i as int]@);
                }
                return Err(
                    LlaError::validation(
                        concat2("Enabled plugin not found: ", self.enabled_plugins[i].as_str()),
                    ),
                );
            }
            i += 1;
        }
        assert(c.enabled_plugins.len() == self.enabled_plugins@.len());
        let mut k: usize = 0;
        while k < self.shortcuts.len()
            invariant
                k <= self.shortcuts.len(),
                c == self@,
                settings_ok(c, probe.dir_exists),
                first_missing(c.enabled_plugins.len() as int, probe.plugin_found@).is_none(),
                first_shortcut_fault(c.shortcuts.take(k as int)).is_none(),
            decreases self.shortcuts.len() - k,
        {
            let name = &self.shortcuts[k].0;
            let cmd = &self.shortcuts[k].1;
            proof {
                assert(c.shortcuts.take(k + 1).drop_last() =~= c.shortcuts.take(k as int));
                assert(c.shortcuts.take(k + 1).last() == (name@, cmd@));
                assert(c.shortcuts[k as int] == (name@, cmd@));
                if shortcut_fault((name@, cmd@), k as int).is_some() {
                    lemma_shortcut_fault_stays(c.shortcuts, k + 1);
                }
            }
            if name.as_str().is_empty() {
                return Err(LlaError::validation("Shortcut name cannot be empty".to_owned()));
            }
            if cmd.plugin_name.as_str().is_empty() {
                return Err(
                    LlaError::validation(
                        concat2("Plugin name cannot be empty for shortcut: ", name.as_str()),
                    ),
                );
            }
            if cmd.action.as_str().is_empty() {
                return Err(
                    LlaError::validation(
                        concat2("Action cannot be empty for shortcut: ", name.as_str()),
                    ),
                );
            }
            k += 1;
        }
        assert(c.shortcuts.take(c.shortcuts.len() as int) =~= c.shortcuts);
        Ok(())
    }
}

/// A plugin found missing among the first `k` stays the first missing one
/// among the first `n`.
pub proof fn lemma_first_missing_stays(k: int, n: int, found: Seq<bool>)
    requires
        0 <= k <= n,
        first_missing(k, found).is_some(),
    ensures
        first_missing(n, found) == first_missing(k, found),
    decreases n - k,
{
    if k < n {
        lemma_first_missing_stays(k, n - 1, found);
    }
}

/// A fault found among the first `k` shortcuts stays the first fault of
/// the whole list.
pub proof fn lemma_shortcut_fault_stays(sc: Seq<(Seq<char>, ShortcutView)>, k: int)
    requires
        0 <= k <= sc.len(),
        first_shortcut_fault(sc.take(k)).is_some(),
    ensures
        first_shortcut_fault(sc) == first_shortcut_fault(sc.take(k)),
    decreases sc.len() - k,
{
    if k < sc.len() {
        assert(sc.take(k + 1).drop_last() =~= sc.take(k));
        lemma_shortcut_fault_stays(sc, k + 1);
    } else {
        assert(sc.take(k) =~= sc);
    }
}

/// What the caller found out before a setting is changed.
#[derive(Debug)]
pub struct SetFacts {
    /// Whether the directory named by the value exists or could be made
    /// (asked only for `plugins_dir`).
    pub dir_created: bool,
    /// The installed themes, where they could be listed (asked only for
    /// `theme`).
    pub themes: Option<Vec<String>>,
}

/// The installed themes a caller reported.
pub open spec fn themes_view(t: Option<Vec<String>>) -> Option<Seq<Seq<char>>> {
    match t {
        Some(v) => Some(texts(v@)),
        None => None,
    }
}

/// The truth value a setting is given, or the error for a value that is
/// none.
pub open spec fn truth_setting(key: Seq<char>, value: Seq<char>) -> Result<bool, LlaErrorView> {
    match truth_value(value) {
        Some(b) => Ok(b),
        None => Err(invalid_value(key, "must be true or false"@)),
    }
}

/// The limit a setting is given, or the error for a value that is no
/// number or too large.
pub open spec fn limit_setting(key: Seq<char>, value: Seq<char>) -> Result<usize, LlaErrorView> {
    match count_value(value) {
        None => Err(invalid_value(key, "must be a number"@)),
        Some(n) => if n > MAX_LISTED {
            Err(invalid_value(key, "should not exceed 100,000"@))
        } else {
            Ok(n)
        },
    }
}

/// The depth a setting is given (`null` in any case for none), or the
/// error for a value that is no positive number.
pub open spec fn depth_setting(key: Seq<char>, value: Seq<char>) -> Result<Option<usize>, LlaErrorView> {
    depth_given(key, value, lowercase(value))
}

/// The depth a setting is given, where `lower` is the value in lowercase.
pub open spec fn depth_given(key: Seq<char>, value: Seq<char>, lower: Seq<char>) -> Result<
    Option<usize>,
    LlaErrorView,
> {
    if lower == "null"@ {
        Ok(None)
    } else {
        match count_value(value) {
            None => Err(invalid_value(key, "must be a positive number or null"@)),
            Some(n) => if n == 0 {
                Err(invalid_value(key, "must be greater than 0 or null"@))
            } else {
                Ok(Some(n))
            },
        }
    }
}

/// The configuration with the setting `key` changed to `value`, or the
/// error that refuses the change.
pub open spec fn setting(
    c: ConfigView,
    key: Seq<char>,
    value: Seq<char>,
    dir_created: bool,
    themes: Option<Seq<Seq<char>>>,
) -> Result<ConfigView, LlaErrorView> {
    if key == "plugins_dir"@ {
        if dir_created {
            Ok(ConfigView { plugins_dir: value, ..c })
        } else {
            Err(invalid_path("Failed to create directory: "@ + value))
        }
    } else if key == "default_sort"@ {
        if is_sort(value) {
            Ok(ConfigView { default_sort: value, ..c })
        } else {
            Err(invalid_value(key, "must be one of: name, size, date"@))
        }
    } else if key == "default_format"@ {
        if is_format(value) {
            Ok(ConfigView { default_format: value, ..c })
        } else {
            Err(
                invalid_value(
                    key,
                    "must be one of: default, long, tree, grid, git, timeline, sizemap, table, fuzzy"@,
                ),
            )
        }
    } else if key == "show_icons"@ {
        match truth_setting(key, value) {
            Ok(b) => Ok(ConfigView { show_icons: b, ..c }),
            Err(e) => Err(e),
        }
    } else if key == "include_dirs"@ {
        match truth_setting(key, value) {
            Ok(b) => Ok(ConfigView { include_dirs: b, ..c }),
            Err(e) => Err(e),
        }
    } else if key == "default_depth"@ {
        match depth_setting(key, value) {
            Ok(d) => Ok(ConfigView { default_depth: d, ..c }),
            Err(e) => Err(e),
        }
    } else if key == "sort.dirs_first"@ {
        match truth_setting(key, value) {
            Ok(b) => Ok(ConfigView { sort: SortConfig { dirs_first: b, ..c.sort }, ..c }),
            Err(e) => Err(e),
        }
    } else if key == "sort.case_sensitive"@ {
        match truth_setting(key, value) {
            Ok(b) => Ok(ConfigView { sort: SortConfig { case_sensitive: b, ..c.sort }, ..c }),
            Err(e) => Err(e),
        }
    } else if key == "sort.natural"@ {
        match truth_setting(key, value) {
            Ok(b) => Ok(ConfigView { sort: SortConfig { natural: b, ..c.sort }, ..c }),
            Err(e) => Err(e),
        }
    } else if key == "filter.case_sensitive"@ {
        match truth_setting(key, value) {
            Ok(b) => Ok(ConfigView { filter: FilterConfig { case_sensitive: b, ..c.filter }, ..c }),
            Err(e) => Err(e),
        }
    } else if key == "filter.no_dotfiles"@ {
        match truth_setting(key, value) {
            Ok(b) => Ok(ConfigView { filter: FilterConfig { no_dotfiles: b, ..c.filter }, ..c }),
            Err(e) => Err(e),
        }
    } else if key == "formatters.tree.max_lines"@ {
        match limit_setting(key, value) {
            Ok(n) => Ok(
                ConfigView {
                    formatters: FormatterConfig {
                        tree: TreeFormatterConfig { max_lines: Some(n) },
                        ..c.formatters
                    },
                    ..c
                },
            ),
            Err(e) => Err(e),
        }
    } else if key == "listers.recursive.max_entries"@ {
        match limit_setting(key, value) {
            Ok(n) => Ok(ConfigView { recursive: RecursiveConfig { max_entries: Some(n) }, ..c }),
            Err(e) => Err(e),
        }
    } else if key == "theme"@ {
        if themes.is_some() && !themes.unwrap().contains(value) {
            Err(
                invalid_value(
                    key,
                    "Theme '"@ + value + "' not found. Available themes: "@ + joined(
                        themes.unwrap(),
                        ", "@,
                    ),
                ),
            )
        } else {
            Ok(ConfigView { theme: value, ..c })
        }
    } else if key == "permission_format"@ {
        if is_permission_format(value) {
            Ok(ConfigView { permission_format: value, ..c })
        } else {
            Err(
                invalid_value(
                    key,
                    "must be one of: symbolic, octal, binary, numeric, verbose, compact"@,
                ),
            )
        }
    } else {
        Err(invalid_value(key, "unknown configuration key: "@ + key))
    }
}

/// What an outcome without a value holds.
pub open spec fn outcome_view(r: Result<(), LlaError>) -> Option<LlaErrorView> {
    match r {
        Ok(_) => None,
        Err(e) => Some(e@),
    }
}

/// Reads the truth value of a setting.
pub fn read_truth(key: &str, value: &str) -> (r: Result<bool, LlaError>)
    ensures
        match r {
            Ok(b) => truth_setting(key@, value@) == Ok::<bool, LlaErrorView>(b),
            Err(e) => truth_setting(key@, value@) == Err::<bool, LlaErrorView>(e@),
        },
{
    match parse_bool(value) {
        Some(b) => Ok(b),
        None => Err(LlaError::value(key, "must be true or false".to_owned())),
    }
}

/// Reads the limit of a setting.
pub fn read_limit(key: &str, value: &str) -> (r: Result<usize, LlaError>)
    ensures
        match r {
            Ok(n) => limit_setting(key@, value@) == Ok::<usize, LlaErrorView>(n),
            Err(e) => limit_setting(key@, value@) == Err::<usize, LlaErrorView>(e@),
        },
{
    match parse_count(value) {
        None => Err(LlaError::value(key, "must be a number".to_owned())),
        Some(n) => if n > MAX_LISTED {
            Err(LlaError::value(key, "should not exceed 100,000".to_owned()))
        } else {
            Ok(n)
        },
    }
}

/// Reads the depth of a setting.
pub fn read_depth(key: &str, value: &str) -> (r: Result<Option<usize>, LlaError>)
    ensures
        match r {
            Ok(d) => depth_setting(key@, value@) == Ok::<Option<usize>, LlaErrorView>(d),
            Err(e) => depth_setting(key@, value@) == Err::<Option<usize>, LlaErrorView>(e@),
        },
{
    let lower = to_lowercase(value);
    depth_from(key, value, lower.as_str())
}

/// Reads the depth of a setting, given the value and the value in
/// lowercase: `null` stands for no depth, a positive number for itself,
/// and anything else is refused.
pub fn depth_from(key: &str, value: &str, lower: &str) -> (r: Result<Option<usize>, LlaError>)
    ensures
        match r {
            Ok(d) => depth_given(key@, value@, lower@) == Ok::<Option<usize>, LlaErrorView>(d),
            Err(e) => depth_given(key@, value@, lower@) == Err::<Option<usize>, LlaErrorView>(e@),
        },
{
    if same_text(lower, "null") {
        return Ok(None);
    }
    match parse_count(value) {
        None => Err(LlaError::value(key, "must be a positive number or null".to_owned())),
        Some(n) => if n == 0 {
            Err(LlaError::value(key, "must be greater than 0 or null".to_owned()))
        } else {
            Ok(Some(n))
        },
    }
}

/// Whether the key names a setting that holds a truth value.
pub open spec fn is_flag_key(key: Seq<char>) -> bool {
    key == "show_icons"@ || key == "include_dirs"@ || key == "sort.dirs_first"@ || key
        == "sort.case_sensitive"@ || key == "sort.natural"@ || key == "filter.case_sensitive"@ || key
        == "filter.no_dotfiles"@
}

/// Whether the key names a setting that holds a number.
pub open spec fn is_number_key(key: Seq<char>) -> bool {
    key == "default_depth"@ || key == "formatters.tree.max_lines"@ || key
        == "listers.recursive.max_entries"@
}

/// Whether the key names a setting that holds a text.
pub open spec fn is_text_key(key: Seq<char>) -> bool {
    key == "plugins_dir"@ || key == "default_sort"@ || key == "default_format"@ || key == "theme"@
        || key == "permission_format"@
}

/// Whether an attempt to change a setting ended as `setting` says.
pub open spec fn set_as_specified(
    before: ConfigView,
    after: ConfigView,
    r: Result<(), LlaError>,
    key: Seq<char>,
    value: Seq<char>,
    facts: SetFacts,
) -> bool {
    match setting(before, key, value, facts.dir_created, themes_view(facts.themes)) {
        Ok(c) => r.is_ok() && after == c,
        Err(e) => outcome_view(r) == Some(e) && after == before,
    }
}

impl Config {
    /// Changes a setting that holds a truth value; `None` for other keys.
    fn set_flag(&mut self, key: &str, value: &str, facts: &SetFacts) -> (done: Option<Result<(), LlaError>>)
        ensures
            match done {
                Some(r) => is_flag_key(key@) && set_as_specified(
                    old(self)@,
                    final(self)@,
                    r,
                    key@,
                    value@,
                    *facts,
                ),
                None => !is_flag_key(key@) && *final(self) == *old(self),
            },
            final(self)@.shortcuts == old(self)@.shortcuts,
    {
        proof {
            reveal_strlit("plugins_dir");
            reveal_strlit("default_sort");
            reveal_strlit("default_format");
            reveal_strlit("theme");
            reveal_strlit("permission_format");
            reveal_strlit("show_icons");
            reveal_strlit("include_dirs");
            reveal_strlit("sort.dirs_first");
            reveal_strlit("sort.case_sensitive");
            reveal_strlit("sort.natural");
            reveal_strlit("filter.case_sensitive");
            reveal_strlit("filter.no_dotfiles");
            reveal_strlit("default_depth");
            reveal_strlit("formatters.tree.max_lines");
            reveal_strlit("listers.recursive.max_entries");
            assert("default_sort"@[0] == 'd');
            assert("include_dirs"@[0] == 'i');
            assert("sort.natural"@[0] == 's');
        }
        if same_text(key, "show_icons") {
            match read_truth(key, value) {
                Ok(b) => {
                    self.show_icons = b;
                    Some(Ok(()))
                },
                Err(e) => Some(Err(e)),
            }
        } else if same_text(key, "include_dirs") {
            match read_truth(key, value) {
                Ok(b) => {
                    self.include_dirs = b;
                    Some(Ok(()))
                },
                Err(e) => Some(Err(e)),
            }
        } else if same_text(key, "sort.dirs_first") {
            match read_truth(key, value) {
                Ok(b) => {
                    self.sort.dirs_first = b;
                    Some(Ok(()))
                },
                Err(e) => Some(Err(e)),
            }
        } else if same_text(key, "sort.case_sensitive") {
            match read_truth(key, value) {
                Ok(b) => {
                    self.sort.case_sensitive = b;
                    Some(Ok(()))
                },
                Err(e) => Some(Err(e)),
            }
        } else if same_text(key, "sort.natural") {
            match read_truth(key, value) {
                Ok(b) => {
                    self.sort.natural = b;
                    Some(Ok(()))
                },
                Err(e) => Some(Err(e)),
            }
        } else if same_text(key, "filter.case_sensitive") {
            match read_truth(key, value) {
                Ok(b) => {
                    self.filter.case_sensitive = b;
                    Some(Ok(()))
                },
                Err(e) => Some(Err(e)),
            }
        } else if same_text(key, "filter.no_dotfiles") {
            match read_truth(key, value) {
                Ok(b) => {
                    self.filter.no_dotfiles = b;
                    Some(Ok(()))
                },
                Err(e) => Some(Err(e)),
            }
        } else {
            None
        }
    }

    /// Changes a setting that holds a number; `None` for other keys.
    fn set_number(&mut self, key: &str, value: &str, facts: &SetFacts) -> (done: Option<Result<(), LlaError>>)
        ensures
            match done {
                Some(r) => is_number_key(key@) && set_as_specified(
                    old(self)@,
                    final(self)@,
                    r,
                    key@,
                    value@,
                    *facts,
                ),
                None => !is_number_key(key@) && *final(self) == *old(self),
            },
            final(self)@.shortcuts == old(self)@.shortcuts,
    {
        proof {
            reveal_strlit("plugins_dir");
            reveal_strlit("default_sort");
            reveal_strlit("default_format");
            reveal_strlit("theme");
            reveal_strlit("permission_format");
            reveal_strlit("show_icons");
            reveal_strlit("include_dirs");
            reveal_strlit("sort.dirs_first");
            reveal_strlit("sort.case_sensitive");
            reveal_strlit("sort.natural");
            reveal_strlit("filter.case_sensitive");
            reveal_strlit("filter.no_dotfiles");
            reveal_strlit("default_depth");
            reveal_strlit("formatters.tree.max_lines");
            reveal_strlit("listers.recursive.max_entries");
            assert("default_sort"@[0] == 'd');
            assert("include_dirs"@[0] == 'i');
            assert("sort.natural"@[0] == 's');
        }
        if same_text(key, "default_depth") {
            match read_depth(key, value) {
                Ok(d) => {
                    self.default_depth = d;
                    Some(Ok(()))
                },
                Err(e) => Some(Err(e)),
            }
        } else if same_text(key, "formatters.tree.max_lines") {
            match read_limit(key, value) {
                Ok(n) => {
                    self.formatters.tree.max_lines = Some(n);
                    Some(Ok(()))
                },
                Err(e) => Some(Err(e)),
            }
        } else if same_text(key, "listers.recursive.max_entries") {
            match read_limit(key, value) {
                Ok(n) => {
                    self.listers.recursive.max_entries = Some(n);
                    Some(Ok(()))
                },
                Err(e) => Some(Err(e)),
            }
        } else {
            None
        }
    }

    /// Changes a setting that holds a text; `None` for other keys.
    fn set_text(&mut self, key: &str, value: &str, facts: &SetFacts) -> (done: Option<Result<(), LlaError>>)
        ensures
            match done {
                Some(r) => is_text_key(key@) && set_as_specified(
                    old(self)@,
                    final(self)@,
                    r,
                    key@,
                    value@,
                    *facts,
                ),
                None => !is_text_key(key@) && *final(self) == *old(self),
            },
            final(self)@.shortcuts == old(self)@.shortcuts,
    {
        proof {
            reveal_strlit("plugins_dir");
            reveal_strlit("default_sort");
            reveal_strlit("default_format");
            reveal_strlit("theme");
            reveal_strlit("permission_format");
            reveal_strlit("show_icons");
            reveal_strlit("include_dirs");
            reveal_strlit("sort.dirs_first");
            reveal_strlit("sort.case_sensitive");
            reveal_strlit("sort.natural");
            reveal_strlit("filter.case_sensitive");
            reveal_strlit("filter.no_dotfiles");
            reveal_strlit("default_depth");
            reveal_strlit("formatters.tree.max_lines");
            reveal_strlit("listers.recursive.max_entries");
            assert("default_sort"@[0] == 'd');
            assert("include_dirs"@[0] == 'i');
            assert("sort.natural"@[0] == 's');
        }
        if same_text(key, "plugins_dir") {
            if !facts.dir_created {
                return Some(Err(LlaError::path(concat2("Failed to create directory: ", value))));
            }
            self.plugins_dir = value.to_owned();
            Some(Ok(()))
        } else if same_text(key, "default_sort") {
            if !known_sort(value) {
                return Some(
                    Err(LlaError::value(key, "must be one of: name, size, date".to_owned())),
                );
            }
            self.default_sort = value.to_owned();
            Some(Ok(()))
        } else if same_text(key, "default_format") {
            if !known_format(value) {
                return Some(
                    Err(
                        LlaError::value(
                            key,
                            "must be one of: default, long, tree, grid, git, timeline, sizemap, table, fuzzy".to_owned(),
                        ),
                    ),
                );
            }
            self.default_format = value.to_owned();
            Some(Ok(()))
        } else if same_text(key, "theme") {
            match &facts.themes {
                Some(list) => {
                    if !has_text(list, value) {
                        let mut why = concat3("Theme '", value, "' not found. Available themes: ");
                        let names = join_texts(list, ", ");
                        why.append(names.as_str());
                        return Some(Err(LlaError::value(key, why)));
                    }
                },
                None => {},
            }
            self.theme = value.to_owned();
            Some(Ok(()))
        } else if same_text(key, "permission_format") {
            if !known_permission_format(value) {
                return Some(
                    Err(
                        LlaError::value(
                            key,
                            "must be one of: symbolic, octal, binary, numeric, verbose, compact".to_owned(),
                        ),
                    ),
                );
            }
            self.permission_format = value.to_owned();
            Some(Ok(()))
        } else {
            None
        }
    }

    /// Changes the setting `key` to `value`. A key that is not known, or a
    /// value that the setting does not take, is refused and nothing
    /// changes.
    pub fn set_value(&mut self, key: &str, value: &str, facts: &SetFacts) -> (r: Result<(), LlaError>)
        ensures
            match setting(old(self)@, key@, value@, facts.dir_created, themes_view(facts.themes)) {
                Ok(c) => r.is_ok() && final(self)@ == c,
                Err(e) => outcome_view(r) == Some(e) && final(self)@ == old(self)@,
            },
            old(self).wf() ==> final(self).wf(),
    {
        proof {
            reveal_strlit("plugins_dir");
            reveal_strlit("default_sort");
            reveal_strlit("default_format");
            reveal_strlit("theme");
            reveal_strlit("permission_format");
            reveal_strlit("show_icons");
            reveal_strlit("include_dirs");
            reveal_strlit("sort.dirs_first");
            reveal_strlit("sort.case_sensitive");
            reveal_strlit("sort.natural");
            reveal_strlit("filter.case_sensitive");
            reveal_strlit("filter.no_dotfiles");
            reveal_strlit("default_depth");
            reveal_strlit("formatters.tree.max_lines");
            reveal_strlit("listers.recursive.max_entries");
            assert("default_sort"@[0] == 'd');
            assert("include_dirs"@[0] == 'i');
            assert("sort.natural"@[0] == 's');
        }
        match self.set_text(key, value, facts) {
            Some(r) => {
                return r;
            },
            None => {},
        }
        match self.set_flag(key, value, facts) {
            Some(r) => {
                return r;
            },
            None => {},
        }
        match self.set_number(key, value, facts) {
            Some(r) => {
                return r;
            },
            None => {},
        }
        Err(LlaError::value(key, concat2("unknown configuration key: ", key)))
    }
}

} // verus!
