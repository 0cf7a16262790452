//! The four ways of organizing: each says, for one file, into which
//! directory below the organized one it goes.

use crate::organizer::config::{
    category_views, range_views, DateStrategyConfig, ExtensionStrategyConfig, RangeView,
    SizeStrategyConfig, TypeStrategyConfig,
};
use crate::text::{lowercase, same_text, texts, to_lowercase};
use vstd::prelude::*;
use vstd::string::*;

verus! {

/// A day of the calendar.
#[derive(Debug, Clone, Copy, PartialEq, Eq, Structural)]
pub struct Day {
    pub year: u32,
    pub month: u32,
    pub day: u32,
}

/// What is known of a directory entry when it is organized.
#[derive(Debug)]
pub struct FileFacts {
    /// The entry's path.
    pub path: String,
    /// Whether it is a directory.
    pub is_dir: bool,
    /// The extension of its name, if it has one.
    pub extension: Option<String>,
    /// Its size in bytes.
    pub size: u64,
    /// The local day it was last modified, if known.
    pub modified: Option<Day>,
}

/// What file facts hold.
pub struct FactsView {
    pub path: Seq<char>,
    pub is_dir: bool,
    pub extension: Option<Seq<char>>,
    pub size: u64,
    pub modified: Option<Day>,
}

impl View for FileFacts {
    type V = FactsView;

    open spec fn view(&self) -> FactsView {
        FactsView {
            path: self.path@,
            is_dir: self.is_dir,
            extension: match self.extension {
                Some(e) => Some(e@),
                None => None,
            },
            size: self.size,
            modified: self.modified,
        }
    }
}

/// What file facts of a list hold.
pub open spec fn facts_views(s: Seq<FileFacts>) -> Seq<FactsView> {
    s.map_values(|f: FileFacts| f@)
}

/// A planned move: the file at `source` goes into the directory reached
/// from the organized one by the names in `target_dir`.
#[derive(Debug)]
pub struct Move {
    pub source: String,
    pub target_dir: Vec<String>,
}

/// What a planned move holds.
pub struct MoveView {
    pub source: Seq<char>,
    pub target_dir: Seq<Seq<char>>,
}

impl View for Move {
    type V = MoveView;

    open spec fn view(&self) -> MoveView {
        MoveView { source: self.source@, target_dir: texts(self.target_dir@) }
    }
}

/// What planned moves of a list hold.
pub open spec fn move_views(s: Seq<Move>) -> Seq<MoveView> {
    s.map_values(|m: Move| m@)
}

/// What a target directory holds.
pub open spec fn target_view(t: Option<Vec<String>>) -> Option<Seq<Seq<char>>> {
    match t {
        Some(v) => Some(texts(v@)),
        None => None,
    }
}

/// A way of organizing a directory.
pub trait OrganizationStrategy {
    /// Whether the strategy is switched on.
    spec fn is_enabled(&self) -> bool;

    /// Where the strategy puts a file; `None` for a file it leaves alone.
    spec fn target_of(&self, file: FactsView) -> Option<Seq<Seq<char>>>;

    /// Whether the strategy is switched on.
    fn enabled(&self) -> (r: bool)
        ensures
            r == self.is_enabled(),
    ;

    /// Where the strategy puts a file.
    fn target(&self, file: &FileFacts) -> (r: Option<Vec<String>>)
        ensures
            target_view(r) == self.target_of(file@),
    ;
}

/// The move of one file under a strategy, if it is moved: directories stay.
pub open spec fn planned<S: OrganizationStrategy>(strategy: S) -> spec_fn(FactsView) -> Option<MoveView> {
    |f: FactsView|
        if f.is_dir {
            None
        } else {
            match strategy.target_of(f) {
                Some(t) => Some(MoveView { source: f.path, target_dir: t }),
                None => None,
            }
        }
}

/// The moves a strategy plans for the entries of a directory: none where
/// it is switched off, else one for each file it has a place for.
pub open spec fn plan_of<S: OrganizationStrategy>(strategy: S, files: Seq<FactsView>) -> Seq<MoveView> {
    if strategy.is_enabled() {
        files.filter_map(planned(strategy))
    } else {
        Seq::empty()
    }
}

/// Plans the moves of the entries of a directory under a strategy.
pub fn organize<S: OrganizationStrategy>(strategy: &S, files: &Vec<FileFacts>) -> (moves: Vec<Move>)
    ensures
        move_views(moves@) == plan_of(*strategy, facts_views(files@)),
{
    let mut moves: Vec<Move> = Vec::new();
    assert(move_views(moves@) =~= Seq::<MoveView>::empty());
    if !strategy.enabled() {
        return moves;
    }
    let ghost all = facts_views(files@);
    let mut i: usize = 0;
    assert(all.take(0).filter_map(planned(*strategy)) =~= Seq::<MoveView>::empty());
    while i < files.len()
        invariant
            i <= files.len(),
            all == facts_views(files@),
            move_views(moves@) == all.take(i as int).filter_map(planned(*strategy)),
        decreases files.len() - i,
    {
        let ghost before = moves@;
        let file = &files[i];
        proof {
            all.lemma_filter_map_take_succ(planned(*strategy), i as int);
        }
        if !file.is_dir {
            match strategy.target(file) {
                Some(dir) => {
                    let m = Move { source: file.path.clone(), target_dir: dir };
                    moves.push(m);
                    assert(move_views(moves@) =~= move_views(before).push(m@));
                },
                None => {},
            }
        }
        i += 1;
    }
    assert(all.take(all.len() as int) =~= all);
    moves
}

/// Organizing by size.
#[derive(Debug)]
pub struct SizeStrategy {
    pub config: SizeStrategyConfig,
}

/// The first of the ranges that takes a size.
pub open spec fn size_category(ranges: Seq<RangeView>, size: u64) -> Option<Seq<char>>
    decreases ranges.len(),
{
    if ranges.len() == 0 {
        None
    } else {
        match size_category(ranges.drop_last(), size) {
            Some(n) => Some(n),
            None => if takes(ranges.last(), size) {
                Some(ranges.last().name)
            } else {
                None
            },
        }
    }
}

/// Whether a range takes a size.
pub open spec fn takes(range: RangeView, size: u64) -> bool {
    match range.max_bytes {
        Some(max) => size <= max,
        None => true,
    }
}

/// A category found among the first `k` ranges is the category among all.
pub proof fn lemma_size_category_stays(ranges: Seq<RangeView>, k: int, size: u64)
    requires
        0 <= k <= ranges.len(),
        size_category(ranges.take(k), size).is_some(),
    ensures
        size_category(ranges, size) == size_category(ranges.take(k), size),
    decreases ranges.len() - k,
{
    if k < ranges.len() {
        assert(ranges.take(k + 1).drop_last() =~= ranges.take(k));
        lemma_size_category_stays(ranges, k + 1, size);
    } else {
        assert(ranges.take(k) =~= ranges);
    }
}

/// What an optional text holds.
pub open spec fn text_view(t: Option<String>) -> Option<Seq<char>> {
    match t {
        Some(s) => Some(s@),
        None => None,
    }
}

impl SizeStrategy {
    pub fn new(config: SizeStrategyConfig) -> (s: Self)
        ensures
            s.config == config,
    {
        SizeStrategy { config }
    }

    /// The name of the first range that takes the size.
    pub fn get_size_category(&self, size: u64) -> (r: Option<String>)
        ensures
            text_view(r) == size_category(range_views(self.config.ranges@), size),
    {
        let ghost ranges = range_views(self.config.ranges@);
        let mut i: usize = 0;
        assert(ranges.take(0) =~= Seq::<RangeView>::empty());
        while i < self.config.ranges.len()
            invariant
                i <= self.config.ranges.len(),
                ranges == range_views(self.config.ranges@),
                size_category(ranges.take(i as int), size).is_none(),
            decreases self.config.ranges.len() - i,
        {
            let range = &self.config.ranges[i];
            proof {
                assert(ranges.take(i + 1).drop_last() =~= ranges.take(i as int));
                assert(ranges.take(i + 1).last() == range@);
            }
            let fits = match range.max_bytes {
                Some(max) => size <= max,
                None => true,
            };
            if fits {
                proof {
                    lemma_size_category_stays(ranges, i + 1, size);
                }
                return Some(range.name.clone());
            }
            i += 1;
        }
        assert(ranges.take(ranges.len() as int) =~= ranges);
        None
    }
}

impl OrganizationStrategy for SizeStrategy {
    open spec fn is_enabled(&self) -> bool {
        self.config.enabled
    }

    open spec fn target_of(&self, file: FactsView) -> Option<Seq<Seq<char>>> {
        match size_category(range_views(self.config.ranges@), file.size) {
            Some(n) => Some(seq![n]),
            None => None,
        }
    }

    fn enabled(&self) -> (r: bool) {
        self.config.enabled
    }

    fn target(&self, file: &FileFacts) -> (r: Option<Vec<String>>) {
        match self.get_size_category(file.size) {
            Some(name) => {
                let mut dir: Vec<String> = Vec::new();
                dir.push(name);
                assert(texts(dir@) =~= seq![name@]);
                Some(dir)
            },
            None => None,
        }
    }
}

/// Organizing by extension.
#[derive(Debug)]
pub struct ExtensionStrategy {
    pub config: ExtensionStrategyConfig,
}

/// The group an extension is nested under, if any.
pub open spec fn extension_group(ext: Seq<char>) -> Option<Seq<char>> {
    if ext == "jpg"@ || ext == "jpeg"@ || ext == "png"@ || ext == "gif"@ || ext == "bmp"@ || ext
        == "svg"@ {
        Some("images"@)
    } else if ext == "mp4"@ || ext == "avi"@ || ext == "mov"@ || ext == "mkv"@ || ext == "wmv"@ {
        Some("videos"@)
    } else if ext == "mp3"@ || ext == "wav"@ || ext == "flac"@ || ext == "m4a"@ || ext == "ogg"@ {
        Some("audio"@)
    } else if ext == "doc"@ || ext == "docx"@ || ext == "pdf"@ || ext == "txt"@ || ext == "rtf"@
        || ext == "md"@ {
        Some("documents"@)
    } else if ext == "zip"@ || ext == "rar"@ || ext == "7z"@ || ext == "tar"@ || ext == "gz"@ {
        Some("archives"@)
    } else {
        None
    }
}

/// The group an extension is nested under, if any.
pub fn group_of_extension(ext: &str) -> (r: Option<&'static str>)
    ensures
        match r {
            Some(g) => extension_group(ext@) == Some(g@),
            None => extension_group(ext@).is_none(),
        },
{
    if same_text(ext, "jpg") || same_text(ext, "jpeg") || same_text(ext, "png") || same_text(
        ext,
        "gif",
    ) || same_text(ext, "bmp") || same_text(ext, "svg") {
        Some("images")
    } else if same_text(ext, "mp4") || same_text(ext, "avi") || same_text(ext, "mov") || same_text(
        ext,
        "mkv",
    ) || same_text(ext, "wmv") {
        Some("videos")
    } else if same_text(ext, "mp3") || same_text(ext, "wav") || same_text(ext, "flac") || same_text(
        ext,
        "m4a",
    ) || same_text(ext, "ogg") {
        Some("audio")
    } else if same_text(ext, "doc") || same_text(ext, "docx") || same_text(ext, "pdf") || same_text(
        ext,
        "txt",
    ) || same_text(ext, "rtf") || same_text(ext, "md") {
        Some("documents")
    } else if same_text(ext, "zip") || same_text(ext, "rar") || same_text(ext, "7z") || same_text(
        ext,
        "tar",
    ) || same_text(ext, "gz") {
        Some("archives")
    } else {
        None
    }
}

/// Where a file with the extension goes: into a directory named by the
/// lowercase extension, nested under its group where nesting is on and the
/// extension has a group.
pub open spec fn extension_target(ext: Seq<char>, nested: bool) -> Seq<Seq<char>> {
    lower_target(lowercase(ext), nested)
}

/// Where a file goes whose extension in lowercase is `lower`.
pub open spec fn lower_target(lower: Seq<char>, nested: bool) -> Seq<Seq<char>> {
    if nested && extension_group(lower).is_some() {
        seq![extension_group(lower).unwrap(), lower]
    } else {
        seq![lower]
    }
}

impl ExtensionStrategy {
    pub fn new(config: ExtensionStrategyConfig) -> (s: Self)
        ensures
            s.config == config,
    {
        ExtensionStrategy { config }
    }

    /// Where a file with the extension goes.
    pub fn target_for(&self, ext: &str) -> (r: Vec<String>)
        ensures
            texts(r@) == extension_target(ext@, self.config.create_nested),
    {
        let lower = to_lowercase(ext);
        self.target_for_lower(lower)
    }

    /// Where a file goes whose extension in lowercase is `lower`: into a
    /// directory of that name, below the directory of its group where
    /// nesting is on and the extension has a group.
    pub fn target_for_lower(&self, lower: String) -> (r: Vec<String>)
        ensures
            texts(r@) == lower_target(lower@, self.config.create_nested),
    {
        let mut dir: Vec<String> = Vec::new();
        if self.config.create_nested {
            match group_of_extension(lower.as_str()) {
                Some(group) => {
                    dir.push(group.to_owned());
                },
                None => {},
            }
        }
        dir.push(lower);
        assert(texts(dir@) =~= lower_target(lower@, self.config.create_nested));
        dir
    }
}

impl OrganizationStrategy for ExtensionStrategy {
    open spec fn is_enabled(&self) -> bool {
        self.config.enabled
    }

    open spec fn target_of(&self, file: FactsView) -> Option<Seq<Seq<char>>> {
        match file.extension {
            Some(ext) => Some(extension_target(ext, self.config.create_nested)),
            None => None,
        }
    }

    fn enabled(&self) -> (r: bool) {
        self.config.enabled
    }

    fn target(&self, file: &FileFacts) -> (r: Option<Vec<String>>) {
        match &file.extension {
            Some(ext) => Some(self.target_for(ext.as_str())),
            None => None,
        }
    }
}

/// Organizing by type.
#[derive(Debug)]
pub struct TypeStrategy {
    pub config: TypeStrategyConfig,
    /// The category of each extension, in the order of the categories.
    pub extension_to_category: Vec<(String, String)>,
}

/// Each extension of each category paired with the category, in order.
pub open spec fn extension_pairs(categories: Seq<(Seq<char>, Seq<Seq<char>>)>) -> Seq<
    (Seq<char>, Seq<char>),
>
    decreases categories.len(),
{
    if categories.len() == 0 {
        Seq::empty()
    } else {
        extension_pairs(categories.drop_last()) + categories.last().1.map_values(
            tagged(categories.last().0),
        )
    }
}

/// Pairing an extension with `category`, as a function.
pub open spec fn tagged(category: Seq<char>) -> spec_fn(Seq<char>) -> (Seq<char>, Seq<char>) {
    |e: Seq<char>| (e, category)
}

/// The category of the last pair that bears the extension: a later
/// category takes an extension over from an earlier one.
pub open spec fn category_of(pairs: Seq<(Seq<char>, Seq<char>)>, ext: Seq<char>) -> Option<Seq<char>>
    decreases pairs.len(),
{
    if pairs.len() == 0 {
        None
    } else if pairs.last().0 == ext {
        Some(pairs.last().1)
    } else {
        category_of(pairs.drop_last(), ext)
    }
}

/// What the pairs of a list hold.
pub open spec fn pairs_view(s: Seq<(String, String)>) -> Seq<(Seq<char>, Seq<char>)> {
    s.map_values(|p: (String, String)| (p.0@, p.1@))
}

/// The category of the last pair among those from `k` on that bears the
/// extension is the category among all, where there is one.
pub proof fn lemma_category_of_tail(pairs: Seq<(Seq<char>, Seq<char>)>, k: int, ext: Seq<char>)
    requires
        0 <= k < pairs.len(),
        pairs[k].0 == ext,
        forall|j: int| k < j < pairs.len() ==> (#[trigger] pairs[j]).0 != ext,
    ensures
        category_of(pairs, ext) == Some(pairs[k].1),
    decreases pairs.len(),
{
    if k < pairs.len() - 1 {
        assert(pairs.last() == pairs[pairs.len() - 1]);
        let rest = pairs.drop_last();
        assert forall|j: int| k < j < rest.len() implies (#[trigger] rest[j]).0 != ext by {
            assert(rest[j] == pairs[j]);
        }
        assert(rest[k] == pairs[k]);
        lemma_category_of_tail(rest, k, ext);
    }
}

/// Where no pair bears the extension there is no category.
pub proof fn lemma_category_of_none(pairs: Seq<(Seq<char>, Seq<char>)>, ext: Seq<char>)
    requires
        forall|j: int| 0 <= j < pairs.len() ==> (#[trigger] pairs[j]).0 != ext,
    ensures
        category_of(pairs, ext).is_none(),
    decreases pairs.len(),
{
    if pairs.len() > 0 {
        assert(pairs.last() == pairs[pairs.len() - 1]);
        let rest = pairs.drop_last();
        assert forall|j: int| 0 <= j < rest.len() implies (#[trigger] rest[j]).0 != ext by {
            assert(rest[j] == pairs[j]);
        }
        lemma_category_of_none(rest, ext);
    }
}

impl TypeStrategy {
    /// The table of extensions agrees with the categories.
    pub open spec fn wf(&self) -> bool {
        pairs_view(self.extension_to_category@) == extension_pairs(
            category_views(self.config.categories@),
        )
    }

    pub fn new(config: TypeStrategyConfig) -> (s: Self)
        ensures
            s.config == config,
            s.wf(),
    {
        let ghost cats = category_views(config.categories@);
        let mut table: Vec<(String, String)> = Vec::new();
        let mut i: usize = 0;
        assert(pairs_view(table@) =~= extension_pairs(cats.take(0)));
        while i < config.categories.len()
            invariant
                i <= config.categories.len(),
                cats == category_views(config.categories@),
                pairs_view(table@) == extension_pairs(cats.take(i as int)),
            decreases config.categories.len() - i,
        {
            let category = &config.categories[i].0;
            let extensions = &config.categories[i].1;
            let ghost start = pairs_view(table@);
            let ghost exts = texts(extensions@);
            proof {
                assert(cats.take(i + 1).drop_last() =~= cats.take(i as int));
                assert(cats.take(i + 1).last() == (category@, exts));
            }
            let mut k: usize = 0;
            while k < extensions.len()
                invariant
                    k <= extensions.len(),
                    exts == texts(extensions@),
                    pairs_view(table@) == start + exts.take(k as int).map_values(tagged(category@)),
                decreases extensions.len() - k,
            {
                let ghost before = pairs_view(table@);
                let ext = extensions[k].clone();
                let cat = category.clone();
                assert(ext@ == exts[k as int]);
                table.push((ext, cat));
                assert(pairs_view(table@) =~= before.push((exts[k as int], category@)));
                assert(exts.take(k + 1).map_values(tagged(category@)) =~= exts.take(k as int).map_values(
                    tagged(category@),
                ).push((exts[k as int], category@)));
                k += 1;
            }
            assert(exts.take(exts.len() as int) =~= exts);
            i += 1;
        }
        assert(cats.take(cats.len() as int) =~= cats);
        TypeStrategy { config, extension_to_category: table }
    }

    /// The category of an extension, case aside.
    pub fn get_category(&self, extension: &str) -> (r: Option<String>)
        ensures
            text_view(r) == category_of(pairs_view(self.extension_to_category@), lowercase(extension@)),
    {
        let lower = to_lowercase(extension);
        self.category_for(lower.as_str())
    }

    /// The category of an extension given in lowercase: that of the last
    /// pair of the table that bears it.
    pub fn category_for(&self, lower: &str) -> (r: Option<String>)
        ensures
            text_view(r) == category_of(pairs_view(self.extension_to_category@), lower@),
    {
        let ghost pairs = pairs_view(self.extension_to_category@);
        let n = self.extension_to_category.len();
        let mut i: usize = n;
        while i > 0
            invariant
                i <= n,
                n == self.extension_to_category.len(),
                pairs == pairs_view(self.extension_to_category@),
                forall|j: int| i <= j < n ==> (#[trigger] pairs[j]).0 != lower@,
            decreases i,
        {
            i -= 1;
            assert(pairs[i as int].0 == self.extension_to_category@[i as int].0@);
            if same_text(self.extension_to_category[i].0.as_str(), lower) {
                proof {
                    assert(pairs[i as int] == (
                        self.extension_to_category@[i as int].0@,
                        self.extension_to_category@[i as int].1@,
                    ));
                    lemma_category_of_tail(pairs, i as int, lower@);
                }
                let category = self.extension_to_category[i].1.clone();
                return Some(category);
            }
        }
        proof {
            lemma_category_of_none(pairs, lower@);
        }
        None
    }
}

impl OrganizationStrategy for TypeStrategy {
    open spec fn is_enabled(&self) -> bool {
        self.config.enabled
    }

    open spec fn target_of(&self, file: FactsView) -> Option<Seq<Seq<char>>> {
        match file.extension {
            Some(ext) => match category_of(pairs_view(self.extension_to_category@), lowercase(ext)) {
                Some(c) => Some(seq![c]),
                None => None,
            },
            None => None,
        }
    }

    fn enabled(&self) -> (r: bool) {
        self.config.enabled
    }

    fn target(&self, file: &FileFacts) -> (r: Option<Vec<String>>) {
        match &file.extension {
            Some(ext) => match self.get_category(ext.as_str()) {
                Some(category) => {
                    let mut dir: Vec<String> = Vec::new();
                    dir.push(category);
                    assert(texts(dir@) =~= seq![category@]);
                    Some(dir)
                },
                None => None,
            },
            None => None,
        }
    }
}

/// Organizing by date.
#[derive(Debug)]
pub struct DateStrategy {
    pub config: DateStrategyConfig,
}

/// The character of a decimal digit.
pub open spec fn digit_char(d: nat) -> char {
    if d == 0 {
        '0'
    } else if d == 1 {
        '1'
    } else if d == 2 {
        '2'
    } else if d == 3 {
        '3'
    } else if d == 4 {
        '4'
    } else if d == 5 {
        '5'
    } else if d == 6 {
        '6'
    } else if d == 7 {
        '7'
    } else if d == 8 {
        '8'
    } else {
        '9'
    }
}

/// A number in decimal, with zeros in front up to `width` digits.
pub open spec fn padded(n: nat, width: nat) -> Seq<char>
    decreases width,
{
    if width == 0 {
        Seq::empty()
    } else {
        padded(n / 10, (width - 1) as nat).push(digit_char(n % 10))
    }
}

/// The text of a decimal digit.
pub fn decimal_digit(d: u32) -> (r: &'static str)
    requires
        d < 10,
    ensures
        r@ == seq![digit_char(d as nat)],
{
    proof {
        reveal_strlit("0");
        reveal_strlit("1");
        reveal_strlit("2");
        reveal_strlit("3");
        reveal_strlit("4");
        reveal_strlit("5");
        reveal_strlit("6");
        reveal_strlit("7");
        reveal_strlit("8");
        reveal_strlit("9");
    }
    let r = if d == 0 {
        "0"
    } else if d == 1 {
        "1"
    } else if d == 2 {
        "2"
    } else if d == 3 {
        "3"
    } else if d == 4 {
        "4"
    } else if d == 5 {
        "5"
    } else if d == 6 {
        "6"
    } else if d == 7 {
        "7"
    } else if d == 8 {
        "8"
    } else {
        "9"
    };
    assert(r@ =~= seq![digit_char(d as nat)]);
    r
}

/// The last `width` decimal digits of a number, zeros in front.
pub fn pad_number(n: u32, width: u8) -> (r: String)
    ensures
        r@ == padded(n as nat, width as nat),
    decreases width,
{
    if width == 0 {
        String::new()
    } else {
        let mut s = pad_number(n / 10, width - 1);
        s.append(decimal_digit(n % 10));
        assert(s@ =~= padded(n as nat, width as nat));
        s
    }
}

/// Where a file last modified on `day` goes: by year, by year and month,
/// or by year, month and day.
pub open spec fn date_target(group_by: Seq<char>, day: Day) -> Seq<Seq<char>> {
    let y = padded(day.year as nat, 4);
    let m = padded(day.month as nat, 2);
    let d = padded(day.day as nat, 2);
    if group_by == "year"@ {
        seq![y]
    } else if group_by == "day"@ {
        seq![y, m, d]
    } else {
        seq![y, m]
    }
}

impl DateStrategy {
    pub fn new(config: DateStrategyConfig) -> (s: Self)
        ensures
            s.config == config,
    {
        DateStrategy { config }
    }

    /// The directories, outermost first, that a file of the day goes into.
    pub fn format_date_path(&self, day: Day) -> (r: Vec<String>)
        ensures
            texts(r@) == date_target(self.config.group_by@, day),
    {
        let mut dir: Vec<String> = Vec::new();
        dir.push(pad_number(day.year, 4));
        if same_text(self.config.group_by.as_str(), "year") {
        } else if same_text(self.config.group_by.as_str(), "day") {
            dir.push(pad_number(day.month, 2));
            dir.push(pad_number(day.day, 2));
        } else {
            dir.push(pad_number(day.month, 2));
        }
        assert(texts(dir@) =~= date_target(self.config.group_by@, day));
        dir
    }
}

impl OrganizationStrategy for DateStrategy {
    open spec fn is_enabled(&self) -> bool {
        self.config.enabled
    }

    open spec fn target_of(&self, file: FactsView) -> Option<Seq<Seq<char>>> {
        match file.modified {
            Some(day) => Some(date_target(self.config.group_by@, day)),
            None => None,
        }
    }

    fn enabled(&self) -> (r: bool) {
        self.config.enabled
    }

    fn target(&self, file: &FileFacts) -> (r: Option<Vec<String>>) {
        match file.modified {
            Some(day) => Some(self.format_date_path(day)),
            None => None,
        }
    }
}

/// The ways of organizing.
#[derive(Debug, Clone, Copy, PartialEq, Eq, Structural)]
pub enum StrategyKind {
    Extension,
    Date,
    Type,
    Size,
}

/// The way of organizing that a name asks for: by extension where no name
/// is given or the name is not known.
pub fn get_strategy(strategy_name: Option<&str>) -> (k: StrategyKind)
    ensures
        k == match strategy_name {
            Some(n) => if n@ == "date"@ {
                StrategyKind::Date
            } else if n@ == "type"@ {
                StrategyKind::Type
            } else if n@ == "size"@ {
                StrategyKind::Size
            } else {
                StrategyKind::Extension
            },
            None => StrategyKind::Extension,
        },
{
    match strategy_name {
        Some(n) => {
            if same_text(n, "date") {
                StrategyKind::Date
            } else if same_text(n, "type") {
                StrategyKind::Type
            } else if same_text(n, "size") {
                StrategyKind::Size
            } else {
                StrategyKind::Extension
            }
        },
        None => StrategyKind::Extension,
    }
}

/// The files that go into one directory.
#[derive(Debug)]
pub struct TargetGroup {
    pub target_dir: Vec<String>,
    pub sources: Vec<String>,
}

/// What a group holds.
pub struct GroupView {
    pub target_dir: Seq<Seq<char>>,
    pub sources: Seq<Seq<char>>,
}

impl View for TargetGroup {
    type V = GroupView;

    open spec fn view(&self) -> GroupView {
        GroupView { target_dir: texts(self.target_dir@), sources: texts(self.sources@) }
    }
}

/// What the groups of a list hold.
pub open spec fn group_views(s: Seq<TargetGroup>) -> Seq<GroupView> {
    s.map_values(|g: TargetGroup| g@)
}

/// Where the group of a directory stands among the first `n` groups.
pub open spec fn group_slot(groups: Seq<GroupView>, dir: Seq<Seq<char>>, n: int) -> Option<int>
    decreases n,
{
    if n <= 0 {
        None
    } else if groups[n - 1].target_dir == dir {
        Some(n - 1)
    } else {
        group_slot(groups, dir, n - 1)
    }
}

/// The groups after one more move: the file joins the group of its
/// directory, or starts a new group at the end.
pub open spec fn with_move(groups: Seq<GroupView>, m: MoveView) -> Seq<GroupView> {
    match group_slot(groups, m.target_dir, groups.len() as int) {
        Some(i) => groups.update(
            i,
            GroupView { target_dir: m.target_dir, sources: groups[i].sources.push(m.source) },
        ),
        None => groups.push(GroupView { target_dir: m.target_dir, sources: seq![m.source] }),
    }
}

/// The first `n` moves grouped by the directory they go into; the groups
/// stand in the order in which their directories first occur, the files of
/// a group in the order of the moves.
pub open spec fn grouped(moves: Seq<MoveView>, n: int) -> Seq<GroupView>
    decreases n,
{
    if n <= 0 {
        Seq::empty()
    } else {
        with_move(grouped(moves, n - 1), moves[n - 1])
    }
}

/// Whether two lists of strings hold the same texts.
pub fn same_texts(a: &Vec<String>, b: &Vec<String>) -> (r: bool)
    ensures
        r == (texts(a@) == texts(b@)),
{
    if a.len() != b.len() {
        assert(texts(a@).len() != texts(b@).len());
        return false;
    }
    let mut i: usize = 0;
    while i < a.len()
        invariant
            i <= a@.len(),
            a@.len() == b@.len(),
            forall|k: int| 0 <= k < i ==> a@[k]@ == b@[k]@,
        decreases a@.len() - i,
    {
        if !same_text(a[i].as_str(), b[i].as_str()) {
            assert(texts(a@)[i as int] != texts(b@)[i as int]);
            return false;
        }
        i += 1;
    }
    assert(texts(a@) =~= texts(b@));
    true
}

/// Groups planned moves by the directory they go into.
pub fn group_moves(moves: &Vec<Move>) -> (groups: Vec<TargetGroup>)
    ensures
        group_views(groups@) == grouped(move_views(moves@), moves@.len() as int),
{
    let ghost all = move_views(moves@);
    let mut groups: Vec<TargetGroup> = Vec::new();
    assert(group_views(groups@) =~= Seq::<GroupView>::empty());
    let mut i: usize = 0;
    while i < moves.len()
        invariant
            i <= moves@.len(),
            all == move_views(moves@),
            group_views(groups@) == grouped(all, i as int),
        decreases moves@.len() - i,
    {
        let m = &moves[i];
        assert(all[i as int] == m@);
        let ghost before = group_views(groups@);
        // look for the group of the directory, last group first
        let mut k: usize = groups.len();
        let mut found: Option<usize> = None;
        while k > 0 && found.is_none()
            invariant
                k <= groups@.len(),
                before == group_views(groups@),
                match found {
                    Some(j) => j < groups@.len() && group_slot(before, m@.target_dir, before.len() as int)
                        == Some(j as int),
                    None => group_slot(before, m@.target_dir, before.len() as int) == group_slot(
                        before,
                        m@.target_dir,
                        k as int,
                    ),
                },
            decreases k,
        {
            k -= 1;
            assert(before[k as int] == groups@[k as int]@);
            if same_texts(&groups[k].target_dir, &m.target_dir) {
                found = Some(k);
            }
        }
        match found {
            Some(j) => {
                let mut sources = crate::text::clone_texts(&groups[j].sources);
                sources.push(m.source.clone());
                assert(texts(sources@) =~= before[j as int].sources.push(m@.source));
                let joined = TargetGroup {
                    target_dir: crate::text::clone_texts(&m.target_dir),
                    sources,
                };
                groups.set(j, joined);
                assert(group_views(groups@) =~= with_move(before, m@));
            },
            None => {
                let mut sources: Vec<String> = Vec::new();
                sources.push(m.source.clone());
                assert(texts(sources@) =~= seq![m@.source]);
                let started = TargetGroup {
                    target_dir: crate::text::clone_texts(&m.target_dir),
                    sources,
                };
                groups.push(started);
                assert(group_views(groups@) =~= with_move(before, m@));
            },
        }
        i += 1;
    }
    groups
}

} // verus!
