//! The values a command line is parsed into.

use crate::config::ShortcutCommand;
use vstd::prelude::*;

verus! {

/// Where a plugin is installed from.
#[derive(Debug)]
pub enum InstallSource {
    GitHub(String),
    LocalDir(String),
}

/// What to do with shortcuts.
#[derive(Debug)]
pub enum ShortcutAction {
    Add(String, ShortcutCommand),
    Remove(String),
    List,
    Run(String, Vec<String>),
}

/// What to do with the configuration.
#[derive(Debug)]
pub enum ConfigAction {
    View,
    /// Change the setting named first to the value given second.
    SetValue(String, String),
}

/// How a listing is written out.
#[derive(Debug, Clone, Copy, PartialEq, Eq, Structural)]
pub enum OutputMode {
    Human,
    Json { pretty: bool },
    Ndjson,
    Csv,
}

/// The listing formats a command line can ask for.
#[derive(Debug, Clone, Copy, PartialEq, Eq, Structural)]
pub struct FormatFlags {
    pub fuzzy: bool,
    pub long: bool,
    pub tree: bool,
    pub table: bool,
    pub grid: bool,
    pub sizemap: bool,
    pub timeline: bool,
    pub git: bool,
    pub recursive: bool,
}

/// The formatter that paints a listing.
#[derive(Debug, Clone, Copy, PartialEq, Eq, Structural)]
pub enum FormatterKind {
    Fuzzy,
    Long,
    Tree,
    Table,
    Grid,
    SizeMap,
    Timeline,
    Git,
    Recursive,
    Default,
}

/// The lister that collects the files.
#[derive(Debug, Clone, Copy, PartialEq, Eq, Structural)]
pub enum ListerKind {
    Fuzzy,
    Recursive,
    Basic,
}

/// The sorter that orders a listing.
#[derive(Debug, Clone, Copy, PartialEq, Eq, Structural)]
pub enum SorterKind {
    Alphabetical,
    Size,
    Date,
}

/// The formatter for the flags given: the first that is set, in a fixed
/// order of precedence, and the default one where none is.
pub open spec fn formatter_for(f: FormatFlags) -> FormatterKind {
    if f.fuzzy {
        FormatterKind::Fuzzy
    } else if f.long {
        FormatterKind::Long
    } else if f.tree {
        FormatterKind::Tree
    } else if f.table {
        FormatterKind::Table
    } else if f.grid {
        FormatterKind::Grid
    } else if f.sizemap {
        FormatterKind::SizeMap
    } else if f.timeline {
        FormatterKind::Timeline
    } else if f.git {
        FormatterKind::Git
    } else if f.recursive {
        FormatterKind::Recursive
    } else {
        FormatterKind::Default
    }
}

/// Picks the formatter for the flags given.
pub fn create_formatter(f: FormatFlags) -> (k: FormatterKind)
    ensures
        k == formatter_for(f),
{
    if f.fuzzy {
        FormatterKind::Fuzzy
    } else if f.long {
        FormatterKind::Long
    } else if f.tree {
        FormatterKind::Tree
    } else if f.table {
        FormatterKind::Table
    } else if f.grid {
        FormatterKind::Grid
    } else if f.sizemap {
        FormatterKind::SizeMap
    } else if f.timeline {
        FormatterKind::Timeline
    } else if f.git {
        FormatterKind::Git
    } else if f.recursive {
        FormatterKind::Recursive
    } else {
        FormatterKind::Default
    }
}

/// Picks the lister for the flags given: the finder for the fuzzy format,
/// the recursive lister for the tree and the recursive formats, the basic
/// one otherwise.
pub fn create_lister(f: FormatFlags) -> (k: ListerKind)
    ensures
        k == if f.fuzzy {
            ListerKind::Fuzzy
        } else if f.tree || f.recursive {
            ListerKind::Recursive
        } else {
            ListerKind::Basic
        },
{
    if f.fuzzy {
        ListerKind::Fuzzy
    } else if f.tree || f.recursive {
        ListerKind::Recursive
    } else {
        ListerKind::Basic
    }
}

/// Picks the sorter by the name of the sort order; an unknown name sorts
/// alphabetically.
pub fn create_sorter(sort_by: &str) -> (k: SorterKind)
    ensures
        k == if sort_by@ == "size"@ {
            SorterKind::Size
        } else if sort_by@ == "date"@ {
            SorterKind::Date
        } else {
            SorterKind::Alphabetical
        },
{
    if crate::text::same_text(sort_by, "size") {
        SorterKind::Size
    } else if crate::text::same_text(sort_by, "date") {
        SorterKind::Date
    } else {
        SorterKind::Alphabetical
    }
}

/// The name of the format that plugins are told of: the first of the
/// fuzzy, long, tree, table, grid and recursive formats that is asked for,
/// and `default` where none is.
pub fn get_format(f: FormatFlags) -> (r: &'static str)
    ensures
        r@ == if f.fuzzy {
            "fuzzy"@
        } else if f.long {
            "long"@
        } else if f.tree {
            "tree"@
        } else if f.table {
            "table"@
        } else if f.grid {
            "grid"@
        } else if f.recursive {
            "recursive"@
        } else {
            "default"@
        },
{
    if f.fuzzy {
        "fuzzy"
    } else if f.long {
        "long"
    } else if f.tree {
        "tree"
    } else if f.table {
        "table"
    } else if f.grid {
        "grid"
    } else if f.recursive {
        "recursive"
    } else {
        "default"
    }
}

/// Whether the command line asks for a format.
pub open spec fn has_format_flag(f: FormatFlags) -> bool {
    f.long || f.tree || f.table || f.grid || f.sizemap || f.timeline || f.git || f.fuzzy
        || f.recursive
}

/// The formats in force: those the command line asks for; where it asks
/// for none, the configured default. The fuzzy format is never a default.
pub open spec fn formats_in_force(given: FormatFlags, default_format: Seq<char>) -> FormatFlags {
    let fallback = !has_format_flag(given);
    FormatFlags {
        fuzzy: given.fuzzy,
        long: given.long || (fallback && default_format == "long"@),
        tree: given.tree || (fallback && default_format == "tree"@),
        table: given.table || (fallback && default_format == "table"@),
        grid: given.grid || (fallback && default_format == "grid"@),
        sizemap: given.sizemap || (fallback && default_format == "sizemap"@),
        timeline: given.timeline || (fallback && default_format == "timeline"@),
        git: given.git || (fallback && default_format == "git"@),
        recursive: given.recursive || (fallback && default_format == "recursive"@),
    }
}

/// Works out the formats in force from the flags of the command line and
/// the configured default.
pub fn resolve_formats(given: FormatFlags, default_format: &str) -> (f: FormatFlags)
    ensures
        f == formats_in_force(given, default_format@),
{
    let fallback = !(given.long || given.tree || given.table || given.grid || given.sizemap
        || given.timeline || given.git || given.fuzzy || given.recursive);
    FormatFlags {
        fuzzy: given.fuzzy,
        long: given.long || (fallback && crate::text::same_text(default_format, "long")),
        tree: given.tree || (fallback && crate::text::same_text(default_format, "tree")),
        table: given.table || (fallback && crate::text::same_text(default_format, "table")),
        grid: given.grid || (fallback && crate::text::same_text(default_format, "grid")),
        sizemap: given.sizemap || (fallback && crate::text::same_text(default_format, "sizemap")),
        timeline: given.timeline || (fallback && crate::text::same_text(default_format, "timeline")),
        git: given.git || (fallback && crate::text::same_text(default_format, "git")),
        recursive: given.recursive || (fallback && crate::text::same_text(
            default_format,
            "recursive",
        )),
    }
}

/// How a listing is written out: as JSON before lines of JSON before CSV,
/// and for people where none of the three is asked for.
pub fn output_mode_of(json: bool, ndjson: bool, csv: bool, pretty: bool) -> (m: OutputMode)
    ensures
        m == if json {
            OutputMode::Json { pretty }
        } else if ndjson {
            OutputMode::Ndjson
        } else if csv {
            OutputMode::Csv
        } else {
            OutputMode::Human
        },
{
    if json {
        OutputMode::Json { pretty }
    } else if ndjson {
        OutputMode::Ndjson
    } else if csv {
        OutputMode::Csv
    } else {
        OutputMode::Human
    }
}

/// The depth in force: the one the command line gives where it is a
/// number, else the configured one.
pub fn depth_in_force(given: Option<&str>, configured: Option<usize>) -> (d: Option<usize>)
    ensures
        d == match given {
            Some(text) => match crate::text::count_value(text@) {
                Some(n) => Some(n),
                None => configured,
            },
            None => configured,
        },
{
    match given {
        Some(text) => match crate::text::parse_count(text) {
            Some(n) => Some(n),
            None => configured,
        },
        None => configured,
    }
}

/// Whether icons are shown: where they are asked for, or configured and
/// not switched off.
pub fn icons_in_force(icons: bool, no_icons: bool, configured: bool) -> (r: bool)
    ensures
        r == (icons || (!no_icons && configured)),
{
    icons || (!no_icons && configured)
}

/// Whether dot files are left out: where that is asked for and
/// configured, and neither all nor almost all files are asked for.
pub fn no_dotfiles_in_force(no_dotfiles: bool, all: bool, almost_all: bool, configured: bool) -> (r: bool)
    ensures
        r == (no_dotfiles && !all && !almost_all && configured),
{
    no_dotfiles && !all && !almost_all && configured
}

} // verus!
