//! The organizer's settings and their defaults.

use crate::text::texts;
use vstd::prelude::*;
use vstd::string::*;

verus! {

/// Settings of organizing by extension.
#[derive(Debug, Clone, Copy, PartialEq, Eq, Structural)]
pub struct ExtensionStrategyConfig {
    pub enabled: bool,
    pub create_nested: bool,
}

/// Settings of organizing by date.
#[derive(Debug)]
pub struct DateStrategyConfig {
    pub enabled: bool,
    pub format: String,
    pub group_by: String,
}

/// Settings of organizing by type: the categories in order, each with the
/// extensions that belong to it.
#[derive(Debug)]
pub struct TypeStrategyConfig {
    pub enabled: bool,
    pub categories: Vec<(String, Vec<String>)>,
}

/// A named range of file sizes; `None` has no upper end.
#[derive(Debug)]
pub struct SizeRange {
    pub name: String,
    pub max_bytes: Option<u64>,
}

/// Settings of organizing by size: the ranges in the order they are tried.
#[derive(Debug)]
pub struct SizeStrategyConfig {
    pub enabled: bool,
    pub ranges: Vec<SizeRange>,
}

/// What the organizer leaves alone.
#[derive(Debug)]
pub struct IgnoreConfig {
    pub patterns: Vec<String>,
    pub extensions: Vec<String>,
}

/// All settings of the organizer.
#[derive(Debug)]
pub struct OrganizerConfig {
    pub colors: Vec<(String, String)>,
    pub extension: ExtensionStrategyConfig,
    pub date: DateStrategyConfig,
    pub type_strategy: TypeStrategyConfig,
    pub size: SizeStrategyConfig,
    pub ignore: IgnoreConfig,
}

/// What a size range holds.
pub struct RangeView {
    pub name: Seq<char>,
    pub max_bytes: Option<u64>,
}

impl View for SizeRange {
    type V = RangeView;

    open spec fn view(&self) -> RangeView {
        RangeView { name: self.name@, max_bytes: self.max_bytes }
    }
}

/// What a list of size ranges holds.
pub open spec fn range_views(s: Seq<SizeRange>) -> Seq<RangeView> {
    s.map_values(|r: SizeRange| r@)
}

/// What a list of categories holds.
pub open spec fn category_views(s: Seq<(String, Vec<String>)>) -> Seq<(Seq<char>, Seq<Seq<char>>)> {
    s.map_values(|c: (String, Vec<String>)| (c.0@, texts(c.1@)))
}

/// What a list of pairs of strings holds.
pub open spec fn pair_views(s: Seq<(String, String)>) -> Seq<(Seq<char>, Seq<char>)> {
    s.map_values(|p: (String, String)| (p.0@, p.1@))
}

pub fn default_extension_enabled() -> (r: bool)
    ensures
        r,
{
    true
}

pub fn default_extension_create_nested() -> (r: bool)
    ensures
        r,
{
    true
}

pub fn default_date_enabled() -> (r: bool)
    ensures
        r,
{
    true
}

pub fn default_date_format() -> (r: String)
    ensures
        r@ == "%Y/%m/%d"@,
{
    "%Y/%m/%d".to_owned()
}

pub fn default_date_group_by() -> (r: String)
    ensures
        r@ == "month"@,
{
    "month".to_owned()
}

pub fn default_type_enabled() -> (r: bool)
    ensures
        r,
{
    true
}

pub fn default_size_enabled() -> (r: bool)
    ensures
        r,
{
    true
}

/// A list of the texts given.
pub fn text_list(items: &[&str]) -> (r: Vec<String>)
    ensures
        r@.len() == items@.len(),
        forall|k: int| 0 <= k < items@.len() ==> (#[trigger] r@[k])@ == items@[k]@,
{
    let mut v: Vec<String> = Vec::new();
    let mut i: usize = 0;
    while i < items.len()
        invariant
            i <= items.len(),
            v@.len() == i,
            forall|k: int| 0 <= k < i ==> (#[trigger] v@[k])@ == items@[k]@,
        decreases items.len() - i,
    {
        v.push(items[i].to_owned());
        i += 1;
    }
    v
}

/// The categories a fresh configuration sorts types into.
pub open spec fn default_categories() -> Seq<(Seq<char>, Seq<Seq<char>>)> {
    seq![
        ("documents"@, seq!["pdf"@, "doc"@, "docx"@, "txt"@, "md"@]),
        ("images"@, seq!["jpg"@, "jpeg"@, "png"@, "gif"@, "svg"@]),
        ("videos"@, seq!["mp4"@, "mov"@, "avi"@, "mkv"@]),
        ("audio"@, seq!["mp3"@, "wav"@, "flac"@, "m4a"@]),
        ("archives"@, seq!["zip"@, "rar"@, "7z"@, "tar"@, "gz"@]),
    ]
}

pub fn default_type_categories() -> (r: Vec<(String, Vec<String>)>)
    ensures
        category_views(r@) == default_categories(),
{
    let mut v: Vec<(String, Vec<String>)> = Vec::new();
    let documents = text_list(&["pdf", "doc", "docx", "txt", "md"]);
    assert(texts(documents@) =~= seq!["pdf"@, "doc"@, "docx"@, "txt"@, "md"@]);
    v.push(("documents".to_owned(), documents));
    let images = text_list(&["jpg", "jpeg", "png", "gif", "svg"]);
    assert(texts(images@) =~= seq!["jpg"@, "jpeg"@, "png"@, "gif"@, "svg"@]);
    v.push(("images".to_owned(), images));
    let videos = text_list(&["mp4", "mov", "avi", "mkv"]);
    assert(texts(videos@) =~= seq!["mp4"@, "mov"@, "avi"@, "mkv"@]);
    v.push(("videos".to_owned(), videos));
    let audio = text_list(&["mp3", "wav", "flac", "m4a"]);
    assert(texts(audio@) =~= seq!["mp3"@, "wav"@, "flac"@, "m4a"@]);
    v.push(("audio".to_owned(), audio));
    let archives = text_list(&["zip", "rar", "7z", "tar", "gz"]);
    assert(texts(archives@) =~= seq!["zip"@, "rar"@, "7z"@, "tar"@, "gz"@]);
    v.push(("archives".to_owned(), archives));
    assert(category_views(v@) =~= default_categories());
    v
}

/// The size ranges of a fresh configuration.
pub open spec fn default_ranges() -> Seq<RangeView> {
    seq![
        RangeView { name: "tiny"@, max_bytes: Some(102400u64) },
        RangeView { name: "small"@, max_bytes: Some(1048576u64) },
        RangeView { name: "medium"@, max_bytes: Some(104857600u64) },
        RangeView { name: "large"@, max_bytes: Some(1073741824u64) },
        RangeView { name: "huge"@, max_bytes: None },
    ]
}

pub fn default_size_ranges() -> (r: Vec<SizeRange>)
    ensures
        range_views(r@) == default_ranges(),
{
    let mut v: Vec<SizeRange> = Vec::new();
    v.push(SizeRange { name: "tiny".to_owned(), max_bytes: Some(102400) });
    v.push(SizeRange { name: "small".to_owned(), max_bytes: Some(1048576) });
    v.push(SizeRange { name: "medium".to_owned(), max_bytes: Some(104857600) });
    v.push(SizeRange { name: "large".to_owned(), max_bytes: Some(1073741824) });
    v.push(SizeRange { name: "huge".to_owned(), max_bytes: None });
    assert(range_views(v@) =~= default_ranges());
    v
}

pub fn default_ignore_patterns() -> (r: Vec<String>)
    ensures
        texts(r@) == seq![".git"@, "node_modules"@, "target"@],
{
    let v = text_list(&[".git", "node_modules", "target"]);
    assert(texts(v@) =~= seq![".git"@, "node_modules"@, "target"@]);
    v
}

pub fn default_ignore_extensions() -> (r: Vec<String>)
    ensures
        texts(r@) == seq![".tmp"@, ".bak"@],
{
    let v = text_list(&[".tmp", ".bak"]);
    assert(texts(v@) =~= seq![".tmp"@, ".bak"@]);
    v
}

/// The colours of a fresh configuration, by what they paint.
pub open spec fn default_color_pairs() -> Seq<(Seq<char>, Seq<char>)> {
    seq![
        ("success"@, "bright_green"@),
        ("info"@, "bright_blue"@),
        ("error"@, "bright_red"@),
        ("path"@, "bright_yellow"@),
    ]
}

pub fn default_colors() -> (r: Vec<(String, String)>)
    ensures
        pair_views(r@) == default_color_pairs(),
{
    let mut v: Vec<(String, String)> = Vec::new();
    v.push(("success".to_owned(), "bright_green".to_owned()));
    v.push(("info".to_owned(), "bright_blue".to_owned()));
    v.push(("error".to_owned(), "bright_red".to_owned()));
    v.push(("path".to_owned(), "bright_yellow".to_owned()));
    assert(pair_views(v@) =~= default_color_pairs());
    v
}

impl Default for ExtensionStrategyConfig {
    fn default() -> (r: Self)
        ensures
            r == (ExtensionStrategyConfig { enabled: true, create_nested: true }),
    {
        ExtensionStrategyConfig {
            enabled: default_extension_enabled(),
            create_nested: default_extension_create_nested(),
        }
    }
}

impl Default for DateStrategyConfig {
    fn default() -> (r: Self)
        ensures
            r.enabled,
            r.format@ == "%Y/%m/%d"@,
            r.group_by@ == "month"@,
    {
        DateStrategyConfig {
            enabled: default_date_enabled(),
            format: default_date_format(),
            group_by: default_date_group_by(),
        }
    }
}

impl Default for TypeStrategyConfig {
    fn default() -> (r: Self)
        ensures
            r.enabled,
            category_views(r.categories@) == default_categories(),
    {
        TypeStrategyConfig { enabled: default_type_enabled(), categories: default_type_categories() }
    }
}

impl Default for SizeStrategyConfig {
    fn default() -> (r: Self)
        ensures
            r.enabled,
            range_views(r.ranges@) == default_ranges(),
    {
        SizeStrategyConfig { enabled: default_size_enabled(), ranges: default_size_ranges() }
    }
}

impl Default for IgnoreConfig {
    fn default() -> (r: Self)
        ensures
            texts(r.patterns@) == seq![".git"@, "node_modules"@, "target"@],
            texts(r.extensions@) == seq![".tmp"@, ".bak"@],
    {
        IgnoreConfig { patterns: default_ignore_patterns(), extensions: default_ignore_extensions() }
    }
}

impl Default for OrganizerConfig {
    fn default() -> (r: Self)
        ensures
            pair_views(r.colors@) == default_color_pairs(),
            r.extension == (ExtensionStrategyConfig { enabled: true, create_nested: true }),
            r.date.enabled && r.date.format@ == "%Y/%m/%d"@ && r.date.group_by@ == "month"@,
            r.type_strategy.enabled && category_views(r.type_strategy.categories@)
                == default_categories(),
            r.size.enabled && range_views(r.size.ranges@) == default_ranges(),
            texts(r.ignore.patterns@) == seq![".git"@, "node_modules"@, "target"@],
            texts(r.ignore.extensions@) == seq![".tmp"@, ".bak"@],
    {
        OrganizerConfig {
            colors: default_colors(),
            extension: ExtensionStrategyConfig::default(),
            date: DateStrategyConfig::default(),
            type_strategy: TypeStrategyConfig::default(),
            size: SizeStrategyConfig::default(),
            ignore: IgnoreConfig::default(),
        }
    }
}

} // verus!
